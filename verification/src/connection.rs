//! What the download of a day's grid computes: the archive's path on the
//! server, the name of the grid's entry in it, the decoding of the entry's
//! big-endian values, and the name of the file a day is stored under.
use vstd::prelude::*;
use ndarray::{Array2, ShapeError};
use flate2::read::GzDecoder;
use std::io::Read;
use crate::date::{
    Date, chrono_format, chrono_date_text, opt_string_view, is_plain_date_format, is_valid_ymd,
    ymd_to_days, plain_date_text, four_digits, two_digits, short_month_name,
    lemma_plain_text_literal, lemma_plain_text_field,
};
use crate::errors::{GridError, MissingDataError};

verus! {

/// Rows of the SNODAS grid.
pub const GRID_ROWS: usize = 3351;

/// Columns of the SNODAS grid.
pub const GRID_COLS: usize = 6935;

#[verifier::external_type_specification]
#[verifier::external_body]
pub struct ExShapeError(ShapeError);

/// A two-dimensional array of 16-bit values: `rows` rows of `cols` cells,
/// held in logical row-major order, and whether its memory is laid out in
/// that order (an array read from a file may be in column-major order).
pub struct Grid {
    rows: usize,
    cols: usize,
    cells: Vec<i16>,
    standard_layout: bool,
}

impl Grid {
    #[verifier::type_invariant]
    spec fn one_value_per_cell(self) -> bool {
        self.cells@.len() == self.rows * self.cols
    }

    /// Number of rows.
    pub closed spec fn row_count(&self) -> nat {
        self.rows as nat
    }

    /// Number of columns.
    pub closed spec fn col_count(&self) -> nat {
        self.cols as nat
    }

    /// The cells, row after row.
    pub closed spec fn values(&self) -> Seq<i16> {
        self.cells@
    }

    /// Whether the array's memory is in row-major order.
    pub closed spec fn is_row_major(&self) -> bool {
        self.standard_layout
    }

    /// The numbers of rows and columns are `usize` values.
    pub proof fn lemma_counts_fit(&self)
        ensures
            self.row_count() <= usize::MAX,
            self.col_count() <= usize::MAX,
    {
    }

    /// The grid of `rows` rows and `cols` columns with the given cells (row
    /// after row), or `None` if there is not exactly one value per cell.
    pub fn from_parts(rows: usize, cols: usize, cells: Vec<i16>, standard_layout: bool) -> (r:
        Option<Grid>)
        ensures
            r is Some <==> cells@.len() == rows * cols,
            r matches Some(g) ==> g.row_count() == rows && g.col_count() == cols && g.values()
                == cells@ && g.is_row_major() == standard_layout,
    {
        let len = cells.len();
        match rows.checked_mul(cols) {
            Some(count) => {
                if len == count {
                    Some(Grid { rows, cols, cells, standard_layout })
                } else {
                    None
                }
            },
            None => None,
        }
    }

    pub fn rows(&self) -> (r: usize)
        ensures
            r == self.row_count(),
    {
        self.rows
    }

    pub fn cols(&self) -> (r: usize)
        ensures
            r == self.col_count(),
    {
        self.cols
    }

    pub fn cells(&self) -> (r: &Vec<i16>)
        ensures
            r@ == self.values(),
            r@.len() == self.row_count() * self.col_count(),
    {
        proof {
            use_type_invariant(self);
        }
        &self.cells
    }

    pub fn is_standard_layout(&self) -> (r: bool)
        ensures
            r == self.is_row_major(),
    {
        self.standard_layout
    }
}

/// An axis length as it counts towards ndarray's size limit: axes of
/// length zero are left out of the product.
pub open spec fn nonzero_extent(len: usize) -> int {
    if len == 0 {
        1
    } else {
        len as int
    }
}

/// Calls `ndarray::Array2::from_shape_vec((rows, cols), cells)`: ndarray
/// refuses a shape whose product of non-zero axis lengths exceeds
/// `isize::MAX`, and otherwise gives an array exactly when there is one
/// value per cell, laid out row after row.
#[verifier::external_body]
fn ndarray_from_shape_vec(rows: usize, cols: usize, cells: Vec<i16>) -> (r: Result<
    Grid,
    ShapeError,
>)
    ensures
        r is Ok <==> (nonzero_extent(rows) * nonzero_extent(cols) <= isize::MAX && cells@.len()
            == rows * cols),
        r matches Ok(g) ==> g.row_count() == rows && g.col_count() == cols && g.values() == cells@
            && g.is_row_major(),
{
    match Array2::from_shape_vec((rows, cols), cells) {
        Ok(array) => {
            let standard_layout = array.is_standard_layout();
            let (cells, _) = array.into_raw_vec_and_offset();
            Ok(Grid { rows, cols, cells, standard_layout })
        },
        Err(e) => Err(e),
    }
}

/// The value of the big-endian 16-bit two's-complement number `hi lo`.
pub open spec fn be_i16_value(hi: u8, lo: u8) -> int {
    let v = hi * 256 + lo;
    if v < 32768 {
        v
    } else {
        v - 65536
    }
}

/// `values` reads `bytes` as consecutive big-endian 16-bit numbers; a last
/// odd byte is left out.
pub open spec fn is_be_i16_reading(bytes: Seq<u8>, values: Seq<i16>) -> bool {
    &&& values.len() == bytes.len() / 2
    &&& forall|i: int|
        0 <= i < values.len() ==> #[trigger] values[i] == be_i16_value(
            bytes[2 * i],
            bytes[2 * i + 1],
        )
}

/// `i16::from_be_bytes([hi, lo])`.
pub fn i16_from_be_bytes(hi: u8, lo: u8) -> (r: i16)
    ensures
        r == be_i16_value(hi, lo),
{
    let v: u16 = (hi as u16) * 256 + (lo as u16);
    if v < 32768 {
        v as i16
    } else {
        (v as i32 - 65536) as i16
    }
}

/// Reads the bytes two by two as big-endian 16-bit numbers.
pub fn decode_be_i16(bytes: &[u8]) -> (r: Vec<i16>)
    ensures
        is_be_i16_reading(bytes@, r@),
{
    let len = bytes.len();
    let n = len / 2;
    let mut values: Vec<i16> = Vec::with_capacity(n);
    let mut i: usize = 0;
    while i < n
        invariant
            len == bytes@.len(),
            n == len / 2,
            i <= n,
            values@.len() == i,
            forall|k: int|
                0 <= k < i ==> #[trigger] values@[k] == be_i16_value(
                    bytes@[2 * k],
                    bytes@[2 * k + 1],
                ),
        decreases n - i,
    {
        assert(2 * i + 1 < bytes@.len());
        values.push(i16_from_be_bytes(bytes[2 * i], bytes[2 * i + 1]));
        i += 1;
    }
    values
}

/// The SNODAS grid held by the decompressed bytes of its archive entry: the
/// bytes read as big-endian 16-bit numbers, `GRID_ROWS` rows of
/// `GRID_COLS` values each.
pub fn decode_grid(bytes: &[u8]) -> (r: Result<Grid, GridError>)
    ensures
        r is Ok <==> bytes@.len() / 2 == GRID_ROWS * GRID_COLS,
        r matches Ok(g) ==> g.row_count() == GRID_ROWS && g.col_count() == GRID_COLS
            && is_be_i16_reading(bytes@, g.values()) && g.is_row_major(),
        r matches Err(e) ==> e == GridError::IncompatibleShape,
{
    let values = decode_be_i16(bytes);
    assert(nonzero_extent(GRID_ROWS) * nonzero_extent(GRID_COLS) <= isize::MAX);
    match ndarray_from_shape_vec(GRID_ROWS, GRID_COLS, values) {
        Ok(grid) => Ok(grid),
        Err(_) => Err(GridError::IncompatibleShape),
    }
}

/// What the download of a day's archive gives: the grid of the entry that
/// was found (given by its decompressed bytes), or `MissingDataError` when
/// no entry of the archive is the grid.
pub fn grid_from_entry(entry: Option<&[u8]>) -> (r: Result<Grid, GridError>)
    ensures
        entry is None ==> r == Err::<Grid, GridError>(GridError::MissingData(MissingDataError)),
        entry matches Some(bytes) ==> (r is Ok <==> bytes@.len() / 2 == GRID_ROWS * GRID_COLS),
        entry matches Some(bytes) ==> (r matches Ok(g) ==> g.row_count() == GRID_ROWS
            && g.col_count() == GRID_COLS && is_be_i16_reading(bytes@, g.values())
            && g.is_row_major()),
        entry matches Some(bytes) ==> (r matches Err(e) ==> e == GridError::IncompatibleShape),
{
    match entry {
        Some(bytes) => decode_grid(bytes),
        None => Err(GridError::MissingData(MissingDataError)),
    }
}

/// The bytes that `flate2`'s gzip decoder gives for `compressed` when read
/// to its end, up to the first error (which the reading passes over).
pub uninterp spec fn gunzip_prefix(compressed: Seq<u8>) -> Seq<u8>;

/// Reads `flate2::read::GzDecoder::new(compressed)` to its end with
/// `read_to_end`, keeping what was decoded before any error. The bytes are
/// named, not stated: `gunzip_prefix`.
#[verifier::external_body]
fn gz_decode(compressed: &[u8]) -> (r: Vec<u8>)
    ensures
        r@ == gunzip_prefix(compressed@),
{
    let mut decoder = GzDecoder::new(compressed);
    let mut data = Vec::new();
    let _ = decoder.read_to_end(&mut data);
    data
}

/// The grid of a day's archive, given the gzip-compressed bytes of the entry
/// that was found, or `None` when no entry of the archive is the grid.
pub fn grid_from_compressed_entry(entry: Option<&[u8]>) -> (r: Result<Grid, GridError>)
    ensures
        entry is None ==> r == Err::<Grid, GridError>(GridError::MissingData(MissingDataError)),
        entry matches Some(c) ==> (r is Ok <==> gunzip_prefix(c@).len() / 2 == GRID_ROWS
            * GRID_COLS),
        entry matches Some(c) ==> (r matches Ok(g) ==> g.row_count() == GRID_ROWS
            && g.col_count() == GRID_COLS && is_be_i16_reading(gunzip_prefix(c@), g.values())
            && g.is_row_major()),
        entry matches Some(c) ==> (r matches Err(e) ==> e == GridError::IncompatibleShape),
{
    match entry {
        Some(compressed) => {
            let data = gz_decode(compressed);
            grid_from_entry(Some(data.as_slice()))
        },
        None => grid_from_entry(None),
    }
}

/// Whether an archive entry with path `entry_path` is the grid whose entry
/// name is `entry_name`.
pub fn is_grid_entry(entry_path: &str, entry_name: &String) -> (r: bool)
    ensures
        r == (entry_path@ == entry_name@),
{
    let path = entry_path.to_owned();
    path == *entry_name
}

/// Path on the server of the tar archive for a day.
pub open spec fn archive_path_format() -> Seq<char> {
    "/DATASETS/NOAA/G02158/masked/%Y/%m_%b/SNODAS_%Y%m%d.tar"@
}

/// Name of the snow-depth entry in a day's archive.
pub open spec fn entry_name_format() -> Seq<char> {
    "us_ssmv11036tS__T0001TTNATS%Y%m%d05HP001.dat.gz"@
}

/// Name, under the archive directory, of the file a day is stored in.
pub open spec fn stored_file_format() -> Seq<char> {
    "/%Y%m%d_snow_depth.npz"@
}

/// The name of the grid's entry for `year-month-day`: the fixed prefix, the
/// year in four digits, the month and the day in two, and the fixed suffix.
pub open spec fn entry_name_text(year: int, month: int, day: int) -> Seq<char> {
    "us_ssmv11036tS__T0001TTNATS"@ + four_digits(year) + two_digits(month) + two_digits(day)
        + "05HP001.dat.gz"@
}

/// Law: the entry name's format gives, for every date, the fixed prefix,
/// then the year, the month and the day as digits, then the fixed suffix.
pub proof fn lemma_entry_name_text(year: int, month: int, day: int)
    ensures
        plain_date_text(entry_name_format(), year, month, day) == entry_name_text(year, month, day),
{
    reveal_strlit("us_ssmv11036tS__T0001TTNATS%Y%m%d05HP001.dat.gz");
    reveal_strlit("us_ssmv11036tS__T0001TTNATS");
    reveal_strlit("05HP001.dat.gz");
    let head = "us_ssmv11036tS__T0001TTNATS"@;
    let tail = "05HP001.dat.gz"@;
    let after_day = tail;
    let after_month = seq!['%', 'd'] + after_day;
    let after_year = seq!['%', 'm'] + after_month;
    let fields = seq!['%', 'Y'] + after_year;
    assert(entry_name_format() =~= head + fields);
    lemma_plain_text_literal(head, fields, year, month, day);
    lemma_plain_text_field('Y', after_year, year, month, day);
    lemma_plain_text_field('m', after_month, year, month, day);
    lemma_plain_text_field('d', after_day, year, month, day);
    lemma_plain_text_literal(tail, seq![], year, month, day);
    assert(tail + Seq::<char>::empty() =~= tail);
    assert(plain_date_text(Seq::<char>::empty(), year, month, day) =~= Seq::<char>::empty());
    assert(plain_date_text(entry_name_format(), year, month, day) =~= entry_name_text(
        year,
        month,
        day,
    ));
}

/// The archive's path for `year-month-day`: the year's directory, the
/// month's directory (two digits, `_`, short name), and the file
/// `SNODAS_` + year, month and day as digits + `.tar`.
pub open spec fn archive_path_text(year: int, month: int, day: int) -> Seq<char> {
    "/DATASETS/NOAA/G02158/masked/"@ + four_digits(year) + "/"@ + two_digits(month) + "_"@
        + short_month_name(month) + "/SNODAS_"@ + four_digits(year) + two_digits(month)
        + two_digits(day) + ".tar"@
}

/// Law: the archive path's format gives, for every date, the path of
/// `archive_path_text`: the date's digits and month name in their places.
pub proof fn lemma_archive_path_text(year: int, month: int, day: int)
    ensures
        plain_date_text(archive_path_format(), year, month, day) == archive_path_text(
            year,
            month,
            day,
        ),
{
    reveal_strlit("/DATASETS/NOAA/G02158/masked/%Y/%m_%b/SNODAS_%Y%m%d.tar");
    reveal_strlit("/DATASETS/NOAA/G02158/masked/");
    reveal_strlit("/");
    reveal_strlit("_");
    reveal_strlit("/SNODAS_");
    reveal_strlit(".tar");
    let l1 = "/DATASETS/NOAA/G02158/masked/"@;
    let l2 = "/"@;
    let l3 = "_"@;
    let l4 = "/SNODAS_"@;
    let l5 = ".tar"@;
    let empty = Seq::<char>::empty();
    let s10 = l5;
    let s9 = seq!['%', 'd'] + s10;
    let s8 = seq!['%', 'm'] + s9;
    let s7 = seq!['%', 'Y'] + s8;
    let s6 = l4 + s7;
    let s5 = seq!['%', 'b'] + s6;
    let s4 = l3 + s5;
    let s3 = seq!['%', 'm'] + s4;
    let s2 = l2 + s3;
    let s1 = seq!['%', 'Y'] + s2;
    assert(archive_path_format() =~= l1 + s1);
    lemma_plain_text_literal(l1, s1, year, month, day);
    lemma_plain_text_field('Y', s2, year, month, day);
    lemma_plain_text_literal(l2, s3, year, month, day);
    lemma_plain_text_field('m', s4, year, month, day);
    lemma_plain_text_literal(l3, s5, year, month, day);
    lemma_plain_text_field('b', s6, year, month, day);
    lemma_plain_text_literal(l4, s7, year, month, day);
    lemma_plain_text_field('Y', s8, year, month, day);
    lemma_plain_text_field('m', s9, year, month, day);
    lemma_plain_text_field('d', s10, year, month, day);
    lemma_plain_text_literal(l5, empty, year, month, day);
    assert(l5 + empty =~= l5);
    assert(plain_date_text(empty, year, month, day) =~= empty);
    assert(plain_date_text(archive_path_format(), year, month, day) =~= archive_path_text(
        year,
        month,
        day,
    ));
}

/// The file name of a day under `prefix`: the prefix, `/`, the year, month
/// and day as digits, and `_snow_depth.npz`.
pub open spec fn stored_file_text(prefix: Seq<char>, year: int, month: int, day: int) -> Seq<
    char,
> {
    prefix + "/"@ + four_digits(year) + two_digits(month) + two_digits(day) + "_snow_depth.npz"@
}

/// Law: a prefix without `%` followed by the stored file's format gives, for
/// every date, the prefix and the file name of `stored_file_text`.
pub proof fn lemma_stored_file_text(prefix: Seq<char>, year: int, month: int, day: int)
    requires
        forall|i: int| 0 <= i < prefix.len() ==> prefix[i] != '%',
    ensures
        plain_date_text(prefix + stored_file_format(), year, month, day) == stored_file_text(
            prefix,
            year,
            month,
            day,
        ),
{
    reveal_strlit("/%Y%m%d_snow_depth.npz");
    reveal_strlit("/");
    reveal_strlit("_snow_depth.npz");
    let l1 = "/"@;
    let l2 = "_snow_depth.npz"@;
    let empty = Seq::<char>::empty();
    let s3 = seq!['%', 'd'] + l2;
    let s2 = seq!['%', 'm'] + s3;
    let s1 = seq!['%', 'Y'] + s2;
    assert(prefix + stored_file_format() =~= prefix + (l1 + s1));
    lemma_plain_text_literal(prefix, l1 + s1, year, month, day);
    lemma_plain_text_literal(l1, s1, year, month, day);
    lemma_plain_text_field('Y', s2, year, month, day);
    lemma_plain_text_field('m', s3, year, month, day);
    lemma_plain_text_field('d', l2, year, month, day);
    lemma_plain_text_literal(l2, empty, year, month, day);
    assert(l2 + empty =~= l2);
    assert(plain_date_text(empty, year, month, day) =~= empty);
    assert(plain_date_text(prefix + stored_file_format(), year, month, day) =~= stored_file_text(
        prefix,
        year,
        month,
        day,
    ));
}

/// The path on the server of the day's tar archive, as chrono formats it.
pub fn grid_archive_path(date: Date) -> (r: Option<String>)
    ensures
        opt_string_view(r) == chrono_date_text(date@, archive_path_format()),
        r is Some,
        forall|year: int, month: int, day: int|
            #![trigger ymd_to_days(year, month, day)]
            is_valid_ymd(year, month, day) && 0 <= year <= 9999 && ymd_to_days(year, month, day)
                == date@ ==> opt_string_view(r) == Some(archive_path_text(year, month, day)),
{
    proof {
        reveal_strlit("/DATASETS/NOAA/G02158/masked/%Y/%m_%b/SNODAS_%Y%m%d.tar");
        assert forall|year: int, month: int, day: int|
            #![trigger ymd_to_days(year, month, day)]
            is_valid_ymd(year, month, day) implies plain_date_text(
                archive_path_format(),
                year,
                month,
                day,
            ) == archive_path_text(year, month, day) by {
            lemma_archive_path_text(year, month, day);
        }
    }
    chrono_format(date, "/DATASETS/NOAA/G02158/masked/%Y/%m_%b/SNODAS_%Y%m%d.tar")
}

/// The name of the snow-depth entry in the day's archive.
pub fn grid_entry_name(date: Date) -> (r: Option<String>)
    ensures
        opt_string_view(r) == chrono_date_text(date@, entry_name_format()),
        r is Some,
        forall|year: int, month: int, day: int|
            #![trigger ymd_to_days(year, month, day)]
            is_valid_ymd(year, month, day) && 0 <= year <= 9999 && ymd_to_days(year, month, day)
                == date@ ==> opt_string_view(r) == Some(entry_name_text(year, month, day)),
{
    proof {
        reveal_strlit("us_ssmv11036tS__T0001TTNATS%Y%m%d05HP001.dat.gz");
        assert forall|year: int, month: int, day: int|
            #![trigger ymd_to_days(year, month, day)]
            is_valid_ymd(year, month, day) implies plain_date_text(entry_name_format(), year, month, day)
                == entry_name_text(year, month, day) by {
            lemma_entry_name_text(year, month, day);
        }
    }
    chrono_format(date, "us_ssmv11036tS__T0001TTNATS%Y%m%d05HP001.dat.gz")
}

/// The file the day's grid is stored in: the archive prefix followed by
/// `/YYYYMMDD_snow_depth.npz`, the whole read by chrono as a format (so a
/// `%` in the prefix is a specifier). `None` where chrono rejects the format
/// (a prefix such as `%Q`): that is where formatting the path with
/// `to_string` would panic, and the caller decides what follows. A prefix
/// without `%` always gives a name.
pub fn filename_for_date(date: Date, archive_prefix: &str) -> (r: Option<String>)
    ensures
        opt_string_view(r) == chrono_date_text(date@, archive_prefix@ + stored_file_format()),
        (forall|i: int| 0 <= i < archive_prefix@.len() ==> archive_prefix@[i] != '%') ==> r is Some,
        forall|year: int, month: int, day: int|
            #![trigger ymd_to_days(year, month, day)]
            (forall|i: int| 0 <= i < archive_prefix@.len() ==> archive_prefix@[i] != '%')
                && is_valid_ymd(year, month, day) && 0 <= year <= 9999 && ymd_to_days(
                year,
                month,
                day,
            ) == date@ ==> opt_string_view(r) == Some(
                stored_file_text(archive_prefix@, year, month, day),
            ),
{
    proof {
        reveal_strlit("/%Y%m%d_snow_depth.npz");
        let whole = archive_prefix@ + stored_file_format();
        if forall|i: int| 0 <= i < archive_prefix@.len() ==> archive_prefix@[i] != '%' {
            assert forall|i: int| 0 <= i < whole.len() && #[trigger] whole[i] == '%' implies i + 1
                < whole.len() && (whole[i + 1] == 'Y' || whole[i + 1] == 'm' || whole[i + 1] == 'd'
                || whole[i + 1] == 'b') by {
                if i < archive_prefix@.len() {
                    assert(archive_prefix@[i] == whole[i]);
                } else {
                    assert(whole[i] == stored_file_format()[i - archive_prefix@.len()]);
                    assert(whole[i + 1] == stored_file_format()[i + 1 - archive_prefix@.len()]);
                }
            }
            assert forall|year: int, month: int, day: int|
                #![trigger ymd_to_days(year, month, day)]
                is_valid_ymd(year, month, day) implies plain_date_text(whole, year, month, day)
                    == stored_file_text(archive_prefix@, year, month, day) by {
                lemma_stored_file_text(archive_prefix@, year, month, day);
            }
        }
    }
    let mut format = archive_prefix.to_owned();
    format.append("/%Y%m%d_snow_depth.npz");
    chrono_format(date, format.as_str())
}

} // verus!
