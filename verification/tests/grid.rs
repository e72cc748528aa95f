use snodas::connection::{
    decode_be_i16, decode_grid, grid_archive_path, grid_entry_name, grid_from_entry,
    i16_from_be_bytes, Grid, GRID_COLS, GRID_ROWS,
};
use snodas::date::Date;
use snodas::errors::{GridError, MissingDataError};
use snodas::filename_for_date;
use snodas::graphing::SnowData;

fn ymd(y: i32, m: u32, d: u32) -> Date {
    Date::from_ymd_opt(y, m, d).expect("valid date")
}

#[test]
fn archive_path_of_a_day() {
    assert_eq!(
        grid_archive_path(ymd(2012, 1, 1)).as_deref(),
        Some("/DATASETS/NOAA/G02158/masked/2012/01_Jan/SNODAS_20120101.tar")
    );
    assert_eq!(
        grid_archive_path(ymd(2003, 9, 30)).as_deref(),
        Some("/DATASETS/NOAA/G02158/masked/2003/09_Sep/SNODAS_20030930.tar")
    );
}

#[test]
fn entry_name_of_a_day() {
    assert_eq!(
        grid_entry_name(ymd(2012, 1, 1)).as_deref(),
        Some("us_ssmv11036tS__T0001TTNATS2012010105HP001.dat.gz")
    );
}

#[test]
fn filename_of_a_day() {
    assert_eq!(
        filename_for_date(ymd(2012, 1, 1), "data").as_deref(),
        Some("data/20120101_snow_depth.npz")
    );
    assert_eq!(
        filename_for_date(ymd(2004, 12, 5), "/tmp/archive").as_deref(),
        Some("/tmp/archive/20041205_snow_depth.npz")
    );
}

#[test]
fn filename_prefix_is_read_as_a_format() {
    assert_eq!(
        filename_for_date(ymd(2012, 1, 1), "%Y").as_deref(),
        Some("2012/20120101_snow_depth.npz")
    );
    assert_eq!(filename_for_date(ymd(2012, 1, 1), "%Q"), None);
    assert_eq!(filename_for_date(ymd(2012, 1, 1), "a%"), None);
    assert_eq!(
        filename_for_date(ymd(2012, 1, 1), "").as_deref(),
        Some("/20120101_snow_depth.npz")
    );
    assert_eq!(filename_for_date(ymd(2012, 1, 1), "%H"), None);
}

#[test]
fn big_endian_values() {
    assert_eq!(i16_from_be_bytes(0x01, 0x02), 258);
    assert_eq!(i16_from_be_bytes(0x00, 0x00), 0);
    assert_eq!(i16_from_be_bytes(0x7f, 0xff), 32767);
    assert_eq!(i16_from_be_bytes(0x80, 0x00), -32768);
    assert_eq!(i16_from_be_bytes(0xff, 0xfe), -2);
    assert_eq!(i16_from_be_bytes(0xfc, 0x19), -999);
}

#[test]
fn decoding_leaves_out_a_last_odd_byte() {
    assert_eq!(decode_be_i16(&[0x00, 0x05, 0xff, 0xff, 0x12]), vec![5, -1]);
    assert_eq!(decode_be_i16(&[0x12]), Vec::<i16>::new());
    assert_eq!(decode_be_i16(&[]), Vec::<i16>::new());
}

#[test]
fn grid_of_the_wrong_size_is_refused() {
    assert_eq!(decode_grid(&[0, 1, 0, 2]).err(), Some(GridError::IncompatibleShape));
    let short = vec![0u8; 2 * GRID_ROWS * GRID_COLS - 2];
    assert_eq!(decode_grid(&short).err(), Some(GridError::IncompatibleShape));
}

#[test]
fn grid_of_the_right_size_is_decoded() {
    let mut bytes = vec![0u8; 2 * GRID_ROWS * GRID_COLS + 1];
    bytes[0] = 0x01;
    bytes[1] = 0x02;
    let last = 2 * GRID_ROWS * GRID_COLS - 2;
    bytes[last] = 0xff;
    bytes[last + 1] = 0xfe;
    let grid = decode_grid(&bytes).expect("grid");
    assert_eq!(grid.rows(), 3351);
    assert_eq!(grid.cols(), 6935);
    assert!(grid.is_standard_layout());
    assert_eq!(grid.cells().len(), 3351 * 6935);
    assert_eq!(grid.cells()[0], 258);
    assert_eq!(grid.cells()[GRID_ROWS * GRID_COLS - 1], -2);
}

#[test]
fn archive_without_the_grid_is_missing_data() {
    assert_eq!(grid_from_entry(None).err(), Some(GridError::MissingData(MissingDataError)));
    assert_eq!(grid_from_entry(Some(&[1, 2, 3])).err(), Some(GridError::IncompatibleShape));
}

#[test]
fn missing_data_error_text() {
    assert_eq!(MissingDataError.to_string(), "MissingDataError");
}

#[test]
fn grid_parts_must_hold_one_value_per_cell() {
    assert!(Grid::from_parts(2, 3, vec![0; 5], true).is_none());
    assert!(Grid::from_parts(2, 3, vec![0; 7], true).is_none());
    let g = Grid::from_parts(2, 3, vec![1, 2, 3, 4, 5, 6], false).expect("grid");
    assert_eq!((g.rows(), g.cols()), (2, 3));
    assert!(!g.is_standard_layout());
    assert!(Grid::from_parts(usize::MAX, 2, vec![], true).is_none());
    assert!(Grid::from_parts(0, 5, vec![], true).is_some());
}

fn snow(rows: usize, cols: usize, cells: Vec<i16>) -> SnowData {
    SnowData::from_raw(Grid::from_parts(rows, cols, cells, true).expect("grid"))
}

#[test]
fn width_and_height_are_columns_and_rows() {
    let data = snow(2, 3, vec![0; 6]);
    assert_eq!(data.width(), 3);
    assert_eq!(data.height(), 2);
}

#[test]
fn drawing_at_the_same_size_keeps_the_levels() {
    let data = snow(2, 2, vec![-1, 2, 3, 400]);
    assert_eq!(data.display_buffer(2, 2), vec![65535, 2, 3, 400]);
}

#[test]
fn drawing_resamples_to_the_requested_size() {
    let data = snow(4, 4, vec![100; 16]);
    assert_eq!(data.display_buffer(2, 2), vec![100, 100, 100, 100]);
    assert_eq!(data.display_buffer(3, 1), vec![100, 100, 100]);
    let data = snow(1, 2, vec![0, 1000]);
    let wide = data.display_buffer(4, 1);
    assert_eq!(wide.len(), 4);
    assert!(wide[0] <= wide[1] && wide[1] <= wide[2] && wide[2] <= wide[3]);
}

#[test]
fn image_needs_a_row_major_grid() {
    let data = SnowData::from_raw(Grid::from_parts(2, 2, vec![1, 2, 3, 4], false).unwrap());
    assert!(!data.is_row_major());
    assert!(data.to_image(2, 2).is_none());
    let data = snow(2, 2, vec![1, 2, 3, 4]);
    assert!(data.is_row_major());
    assert!(data.to_image(1, 1).is_some());
}
