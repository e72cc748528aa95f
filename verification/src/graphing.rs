//! A day's snow depths as a grey-scale picture.
use vstd::prelude::*;
use image::imageops::{self, FilterType};
use image::{ImageBuffer, Luma, Pixel};
use ndarray::{Ix2, OwnedRepr};
use ndarray::Array2;
use ndarray_npy::{NpzReader, NpzWriter};
use std::io::Cursor;
use crate::connection::{Grid, nonzero_extent, GRID_ROWS, GRID_COLS};

verus! {

/// A 16-bit grey-scale image of the `image` crate
/// (`ImageBuffer<Luma<u16>, Vec<u16>>`), held out of Verus's sight:
/// `luma_size` and `luma_pixels` name what it holds.
#[verifier::external_body]
pub struct LumaImage {
    buffer: ImageBuffer<Luma<u16>, Vec<u16>>,
}

/// Width and height of the image.
pub uninterp spec fn luma_size(image: LumaImage) -> (u32, u32);

/// The pixel values of the image, row after row.
pub uninterp spec fn luma_pixels(image: LumaImage) -> Seq<u16>;

/// The pixels that `image::imageops::resize` with `FilterType::Triangle`
/// gives for a `width` by `height` image with the given pixels, resampled
/// to `new_width` by `new_height`.
pub uninterp spec fn triangle_resized(
    width: u32,
    height: u32,
    pixels: Seq<u16>,
    new_width: u32,
    new_height: u32,
) -> Seq<u16>;

/// Calls `ImageBuffer::from_raw(width, height, buffer)`: an image exactly
/// when the buffer holds at least `width * height` values, of which the
/// first `width * height` are its pixels, row after row.
#[verifier::external_body]
fn luma_from_raw(width: u32, height: u32, buffer: Vec<u16>) -> (r: Option<LumaImage>)
    ensures
        r is Some <==> width * height <= buffer@.len(),
        r matches Some(image) ==> luma_size(image) == (width, height) && luma_pixels(image)
            == buffer@.take(width * height),
{
    match ImageBuffer::from_raw(width, height, buffer) {
        Some(buffer) => Some(LumaImage { buffer }),
        None => None,
    }
}

/// Calls `imageops::resize(image, new_width, new_height, FilterType::Triangle)`.
/// The result has the new size and one pixel per place; at the image's own
/// size it is a copy of the image. Its pixels are otherwise named, not
/// stated: `triangle_resized`. The `requires` leaves out the
/// sizes whose buffers the `image` crate cannot allocate (it panics there).
#[verifier::external_body]
fn luma_resize(image: &LumaImage, new_width: u32, new_height: u32) -> (r: LumaImage)
    requires
        16 * luma_size(*image).0 * new_height <= isize::MAX,
        2 * new_width * new_height <= isize::MAX,
    ensures
        luma_size(r) == (new_width, new_height),
        luma_pixels(r) == triangle_resized(
            luma_size(*image).0,
            luma_size(*image).1,
            luma_pixels(*image),
            new_width,
            new_height,
        ),
        luma_pixels(r).len() == new_width * new_height,
        (new_width, new_height) == luma_size(*image) ==> luma_pixels(r) == luma_pixels(*image),
{
    LumaImage { buffer: imageops::resize(&image.buffer, new_width, new_height, FilterType::Triangle) }
}

/// The value of each pixel of the image (`ImageBuffer::pixels`, the first
/// channel of each), row after row.
#[verifier::external_body]
fn luma_pixel_values(image: &LumaImage) -> (r: Vec<u16>)
    ensures
        r@ == luma_pixels(*image),
{
    image.buffer.pixels().map(|p| p.channels()[0]).collect()
}

/// A 16-bit value read as unsigned, as `as u16` does: negative values wrap
/// around to the top of the range.
pub open spec fn wrap_to_u16(v: i16) -> u16 {
    if v >= 0 {
        v as u16
    } else {
        (v + 65536) as u16
    }
}

/// Law: each grey level is its value modulo 2^16, so the levels keep the
/// values from 0 to 32767 and put the negative ones above them.
pub proof fn lemma_grey_levels_are_residues(values: Seq<i16>)
    ensures
        grey_levels(values).len() == values.len(),
        forall|i: int|
            0 <= i < values.len() ==> #[trigger] grey_levels(values)[i] as int == (values[i] as int
                + 65536) % 65536,
{
    assert forall|i: int| 0 <= i < values.len() implies #[trigger] grey_levels(values)[i] as int == (
    values[i] as int + 65536) % 65536 by {
        let v = values[i];
        if v >= 0 {
            assert((v + 65536) % 65536 == v as int);
        } else {
            assert((v + 65536) % 65536 == v + 65536);
        }
    }
}

/// The grid's values as unsigned grey levels.
pub open spec fn grey_levels(values: Seq<i16>) -> Seq<u16> {
    values.map_values(|v: i16| wrap_to_u16(v))
}

/// The sizes for which drawing the grid at `width` by `height` stays within
/// what can be allocated and within the `u32` sizes of an image.
pub open spec fn drawable(grid: Grid, width: usize, height: usize) -> bool {
    &&& grid.col_count() <= u32::MAX
    &&& grid.row_count() <= u32::MAX
    &&& width <= u32::MAX
    &&& height <= u32::MAX
    &&& 16 * grid.col_count() * height <= isize::MAX
    &&& 2 * width * height <= isize::MAX
}

/// The grey levels of the grid drawn at `width` by `height`.
pub open spec fn drawn_pixels(grid: Grid, width: usize, height: usize) -> Seq<u16> {
    triangle_resized(
        grid.col_count() as u32,
        grid.row_count() as u32,
        grey_levels(grid.values()),
        width as u32,
        height as u32,
    )
}

/// The array called `name` that `ndarray_npy` reads from the `.npz` file
/// held by `bytes`, as a 16-bit array of two dimensions: its rows, its
/// columns, its values row after row, and whether its memory is in
/// row-major order; `None` where the reading fails.
pub uninterp spec fn npz_i16_array(bytes: Seq<u8>, name: Seq<char>) -> Option<
    (usize, usize, Seq<i16>, bool),
>;

/// The view of what `npz_read_i16_array` returns.
pub open spec fn opt_array_view(r: Option<(usize, usize, Vec<i16>, bool)>) -> Option<
    (usize, usize, Seq<i16>, bool),
> {
    match r {
        Some((rows, cols, cells, standard)) => Some((rows, cols, cells@, standard)),
        None => None,
    }
}

/// Reads the array `name` of the `.npz` file held by `bytes` with
/// `NpzReader::new` and `by_name` as an `Array2<i16>`, and takes its shape,
/// its layout and its values in logical order. An array holds one value per
/// cell; what is read is otherwise named, not stated: `npz_i16_array`.
#[verifier::external_body]
fn npz_read_i16_array(bytes: &[u8], name: &str) -> (r: Option<(usize, usize, Vec<i16>, bool)>)
    ensures
        opt_array_view(r) == npz_i16_array(bytes@, name@),
        r matches Some((rows, cols, cells, _)) ==> cells@.len() == rows * cols,
{
    let mut npz = match NpzReader::new(Cursor::new(bytes)) {
        Ok(npz) => npz,
        Err(_) => return None,
    };
    match npz.by_name::<OwnedRepr<i16>, Ix2>(name) {
        Ok(array) => {
            let (rows, cols) = array.dim();
            let standard_layout = array.is_standard_layout();
            Some((rows, cols, array.iter().cloned().collect(), standard_layout))
        },
        Err(_) => None,
    }
}

/// Writes the array `name` of `rows` rows of `cells` (row after row) as a
/// compressed `.npz` file into memory: `Array2::from_shape_vec`,
/// `NpzWriter::new_compressed`, `add_array` and `finish`; `None` where a step
/// reports an error. The bytes depend on the time of writing (the zip entry's
/// date), so they are not named; what is stated is that `ndarray_npy` reads
/// back what it wrote: the same shape and values, in row-major order. The
/// writing succeeds when ndarray takes the shape and the array's data stays
/// well below the 4 GiB beyond which the zip writer, without its large-file
/// option, reports an error (the output is a `Vec`, whose writes do not fail).
#[verifier::external_body]
fn npz_write_i16_array(name: &str, rows: usize, cols: usize, cells: &Vec<i16>) -> (r: Option<
    Vec<u8>,
>)
    ensures
        r matches Some(bytes) ==> npz_i16_array(bytes@, name@) == Some((rows, cols, cells@, true)),
        cells@.len() == rows * cols && nonzero_extent(rows) * nonzero_extent(cols) <= isize::MAX
            && cells@.len() <= MAX_NPZ_CELLS ==> r is Some,
{
    let array = match Array2::from_shape_vec((rows, cols), cells.clone()) {
        Ok(array) => array,
        Err(_) => return None,
    };
    let mut bytes = Cursor::new(Vec::new());
    let mut npz = NpzWriter::new_compressed(&mut bytes);
    if npz.add_array(name, &array).is_err() || npz.finish().is_err() {
        return None;
    }
    Some(bytes.into_inner())
}

/// Number of 16-bit values up to which an array is always written: its
/// 2 GiB of data stay below the zip writer's 4 GiB limit.
pub const MAX_NPZ_CELLS: usize = 0x4000_0000;

/// Law: a full SNODAS grid is within the size `to_npz` always writes.
pub proof fn lemma_snodas_grid_writable()
    ensures
        nonzero_extent(GRID_ROWS) * nonzero_extent(GRID_COLS) <= MAX_NPZ_CELLS,
{
    assert(nonzero_extent(GRID_ROWS) == 3351);
    assert(nonzero_extent(GRID_COLS) == 6935);
    assert(3351 * 6935 == 23239185) by (nonlinear_arith);
}

/// What a `.npz` file holds under `snow_depth` when it stores the grid.
pub open spec fn stores_grid(bytes: Seq<u8>, grid: Grid) -> bool {
    npz_i16_array(bytes, "snow_depth"@) == Some(
        (
            grid.row_count() as usize,
            grid.col_count() as usize,
            grid.values(),
            grid.is_row_major(),
        ),
    )
}

/// A day's snow depths.
pub struct SnowData {
    data: Grid,
}

impl SnowData {
    /// The grid of snow depths.
    pub closed spec fn grid(&self) -> Grid {
        self.data
    }

    pub fn from_raw(data: Grid) -> (r: SnowData)
        ensures
            r.grid() == data,
    {
        SnowData { data }
    }

    /// The snow depths stored in the `.npz` file held by `bytes`, under the
    /// name `snow_depth`; `None` where that array cannot be read.
    pub fn from_npz(bytes: &[u8]) -> (r: Option<SnowData>)
        ensures
            r is Some <==> npz_i16_array(bytes@, "snow_depth"@) is Some,
            r matches Some(data) ==> stores_grid(bytes@, data.grid()),
    {
        match npz_read_i16_array(bytes, "snow_depth") {
            Some((rows, cols, cells, standard_layout)) => {
                match Grid::from_parts(rows, cols, cells, standard_layout) {
                    Some(grid) => Some(SnowData { data: grid }),
                    None => None,
                }
            },
            None => None,
        }
    }

    /// The grid as a compressed `.npz` file holding it under `snow_depth`, in
    /// row-major order; `None` where writing fails.
    pub fn to_npz(&self) -> (r: Option<Vec<u8>>)
        ensures
            r matches Some(bytes) ==> npz_i16_array(bytes@, "snow_depth"@) == Some(
                (
                    self.grid().row_count() as usize,
                    self.grid().col_count() as usize,
                    self.grid().values(),
                    true,
                ),
            ),
            nonzero_extent(self.grid().row_count() as usize) * nonzero_extent(
                self.grid().col_count() as usize,
            ) <= MAX_NPZ_CELLS ==> r is Some,
    {
        let rows = self.data.rows();
        let cols = self.data.cols();
        let cells = self.data.cells();
        proof {
            if rows > 0 && cols > 0 {
                assert(nonzero_extent(rows) * nonzero_extent(cols) == rows * cols);
            }
            assert(MAX_NPZ_CELLS <= isize::MAX);
        }
        npz_write_i16_array("snow_depth", rows, cols, cells)
    }

    /// Law: what `to_npz` writes, `from_npz` reads back: a file that holds
    /// `data`'s grid in row-major order and holds `read`'s grid holds the
    /// same shape and values, and `read` is in row-major order.
    pub proof fn lemma_npz_round_trip(data: SnowData, bytes: Seq<u8>, read: SnowData)
        requires
            npz_i16_array(bytes, "snow_depth"@) == Some(
                (
                    data.grid().row_count() as usize,
                    data.grid().col_count() as usize,
                    data.grid().values(),
                    true,
                ),
            ),
            stores_grid(bytes, read.grid()),
        ensures
            read.grid().row_count() == data.grid().row_count(),
            read.grid().col_count() == data.grid().col_count(),
            read.grid().values() == data.grid().values(),
            read.grid().is_row_major(),
    {
        data.grid().lemma_counts_fit();
        read.grid().lemma_counts_fit();
    }

    /// Number of columns of the grid.
    pub fn width(&self) -> (r: usize)
        ensures
            r == self.grid().col_count(),
    {
        self.data.cols()
    }

    /// Number of rows of the grid.
    pub fn height(&self) -> (r: usize)
        ensures
            r == self.grid().row_count(),
    {
        self.data.rows()
    }

    /// Whether the grid's memory is in row-major order, which drawing needs.
    pub fn is_row_major(&self) -> (r: bool)
        ensures
            r == self.grid().is_row_major(),
    {
        self.data.is_standard_layout()
    }

    /// The grid as a grey-scale image (each depth read as an unsigned 16-bit
    /// level), resampled to `width` by `height`; `None` when the grid's
    /// memory is not in row-major order.
    pub fn to_image(&self, width: usize, height: usize) -> (r: Option<LumaImage>)
        requires
            self.grid().col_count() <= u32::MAX,
            self.grid().row_count() <= u32::MAX,
            self.grid().is_row_major() ==> drawable(self.grid(), width, height),
        ensures
            r is Some <==> self.grid().is_row_major(),
            r matches Some(image) ==> luma_size(image) == (width as u32, height as u32)
                && luma_pixels(image) == drawn_pixels(self.grid(), width, height)
                && luma_pixels(image).len() == width * height,
            r matches Some(image) ==> (width == self.grid().col_count() && height
                == self.grid().row_count() ==> luma_pixels(image) == grey_levels(
                self.grid().values(),
            )),
            r matches Some(image) ==> (width == self.grid().col_count() && height
                == self.grid().row_count() ==> forall|i: int|
                0 <= i < luma_pixels(image).len() ==> #[trigger] luma_pixels(image)[i] as int == (
                self.grid().values()[i] as int + 65536) % 65536),
    {
        if !self.data.is_standard_layout() {
            return None;
        }
        let cells = self.data.cells();
        let count = cells.len();
        let mut levels: Vec<u16> = Vec::with_capacity(count);
        let mut i: usize = 0;
        while i < count
            invariant
                count == cells@.len(),
                i <= count,
                levels@ == grey_levels(cells@).take(i as int),
            decreases count - i,
        {
            let v = cells[i];
            let level: u16 = if v >= 0 {
                v as u16
            } else {
                (v as i32 + 65536) as u16
            };
            levels.push(level);
            i += 1;
            assert(levels@ =~= grey_levels(cells@).take(i as int));
        }
        assert(levels@ =~= grey_levels(cells@));
        let cols = self.data.cols() as u32;
        let rows = self.data.rows() as u32;
        assert(cols * rows == count) by {
            vstd::arithmetic::mul::lemma_mul_is_commutative(cols as int, rows as int);
        }
        let image = luma_from_raw(cols, rows, levels);
        match image {
            Some(image) => {
                assert(levels@.take(cols * rows) =~= levels@);
                Some(luma_resize(&image, width as u32, height as u32))
            },
            None => None,
        }
    }

    /// The drawing of `to_image` as one `u32` per pixel, row after row.
    pub fn display_buffer(&self, width: usize, height: usize) -> (r: Vec<u32>)
        requires
            drawable(self.grid(), width, height),
            self.grid().is_row_major(),
        ensures
            r@.len() == width * height,
            forall|i: int|
                0 <= i < r@.len() ==> #[trigger] r@[i] == drawn_pixels(self.grid(), width, height)[i],
            width == self.grid().col_count() && height == self.grid().row_count() ==> forall|i: int|
                0 <= i < r@.len() ==> #[trigger] r@[i] == grey_levels(self.grid().values())[i],
            width == self.grid().col_count() && height == self.grid().row_count() ==> forall|i: int|
                0 <= i < r@.len() ==> #[trigger] r@[i] as int == (self.grid().values()[i] as int
                    + 65536) % 65536,
    {
        let image = self.to_image(width, height).unwrap();
        let pixels = luma_pixel_values(&image);
        let count = pixels.len();
        let mut buffer: Vec<u32> = Vec::with_capacity(count);
        let mut i: usize = 0;
        while i < count
            invariant
                count == pixels@.len(),
                i <= count,
                buffer@.len() == i,
                forall|k: int| 0 <= k < i ==> #[trigger] buffer@[k] == pixels@[k],
            decreases count - i,
        {
            buffer.push(pixels[i] as u32);
            i += 1;
        }
        buffer
    }
}

} // verus!
