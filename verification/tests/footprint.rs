use babamul_objects::fits::check_file;
use babamul_objects::footprint::{
    check_ranges, footprint_of, is_in_footprint, load_footprint_moc, Footprint, FootprintError,
    LoadedFootprint, CELLS, MOC_DEPTH,
};
use moc::deser::fits::{hpx_cells_to_fits_ivoa, ranges_to_fits_ivoa};
use moc::moc::range::RangeMOC;
use moc::moc::{RangeMOCIntoIterator, RangeMOCIterator};
use moc::qty::Hpx;

const WIDTH: u64 = 1 << 36;

#[test]
fn a_cell_is_inside_where_one_range_covers_it() {
    let footprint = Footprint::new(
        MOC_DEPTH,
        vec![
            (0, 2 * WIDTH),
            (5 * WIDTH, 6 * WIDTH - 1),
            (9 * WIDTH - 1, 10 * WIDTH + 1),
            ((CELLS - 1) * WIDTH, CELLS * WIDTH),
        ],
    );
    let inside: Vec<u64> = (0..12).filter(|cell| is_in_footprint(&footprint, *cell)).collect();
    assert_eq!(inside, [0, 1, 9]);
    assert!(is_in_footprint(&footprint, CELLS - 1));
    assert!(!is_in_footprint(&footprint, CELLS - 2));
}

#[test]
fn nothing_is_inside_an_empty_footprint() {
    let footprint = Footprint::new(MOC_DEPTH, vec![]);
    assert!(!is_in_footprint(&footprint, 0));
    assert!(!is_in_footprint(&footprint, CELLS - 1));
}

#[test]
fn there_are_twelve_base_cells() {
    assert_eq!(CELLS, 12 * 4u64.pow(MOC_DEPTH as u32));
}

fn map(ranges: &[(u64, u64)]) -> RangeMOC<u64, Hpx<u64>> {
    let ranges = ranges.iter().map(|range| range.0..range.1).collect();
    RangeMOC::new(MOC_DEPTH, ranges)
}

fn file_of_ranges(ranges: &[(u64, u64)]) -> Vec<u8> {
    let mut bytes = Vec::new();
    ranges_to_fits_ivoa(map(ranges).into_range_moc_iter(), None, None, &mut bytes).unwrap();
    bytes
}

fn file_of_cells(ranges: &[(u64, u64)]) -> Vec<u8> {
    let mut bytes = Vec::new();
    let cells = map(ranges).into_range_moc_iter().cells();
    hpx_cells_to_fits_ivoa(cells, None, None, &mut bytes).unwrap();
    bytes
}

fn cells_inside(loaded: &LoadedFootprint) -> Vec<u64> {
    (0..40).filter(|cell| is_in_footprint(&loaded.footprint, *cell)).collect()
}

fn error(bytes: &[u8]) -> FootprintError {
    match load_footprint_moc(bytes) {
        Ok(_) => panic!("read"),
        Err(error) => error,
    }
}

#[test]
fn a_footprint_is_read_from_its_file() {
    let ranges = [(2 * WIDTH, 5 * WIDTH), (16 * WIDTH, 32 * WIDTH)];
    let expected: Vec<u64> = (2..5).chain(16..32).collect();
    for file in [file_of_ranges(&ranges), file_of_cells(&ranges)] {
        let loaded = load_footprint_moc(&file).unwrap();
        assert!(loaded.consistent);
        assert_eq!(cells_inside(&loaded), expected);
    }
    for file in [file_of_ranges(&[]), file_of_cells(&[])] {
        let loaded = load_footprint_moc(&file).unwrap();
        assert!(loaded.consistent);
        assert!(cells_inside(&loaded).is_empty());
    }
}

#[test]
fn a_table_that_breaks_off_gives_the_ranges_before() {
    let file = file_of_ranges(&[(0, WIDTH), (3 * WIDTH, 4 * WIDTH)]);
    let loaded = load_footprint_moc(&file[..5760 + 16]).unwrap();
    assert_eq!(cells_inside(&loaded), [0]);
}

#[test]
fn ranges_out_of_order_are_read_and_told() {
    let file = file_of_ranges(&[(3 * WIDTH, 4 * WIDTH), (0, WIDTH)]);
    assert!(!load_footprint_moc(&file).unwrap().consistent);
}

#[test]
fn a_map_of_another_kind_is_no_footprint() {
    let mut bytes = Vec::new();
    let small: RangeMOC<u32, Hpx<u32>> = RangeMOC::new(5, vec![0..64].into_iter().collect());
    ranges_to_fits_ivoa(small.into_range_moc_iter(), None, None, &mut bytes).unwrap();
    assert!(matches!(error(&bytes), FootprintError::OtherKind));
}

#[test]
fn a_file_of_no_map_is_not_read() {
    let mut file = file_of_ranges(&[(0, WIDTH)]);
    file[..6].copy_from_slice(b"COMPLE");
    match error(&file) {
        FootprintError::Unreadable(words) => assert!(!words.is_empty()),
        other => panic!("{:?}", other),
    }
}

#[test]
fn a_file_that_is_not_laid_out_as_one_is_not_read() {
    assert!(matches!(error(&[]), FootprintError::NotSound));
    let file = file_of_ranges(&[(0, WIDTH)]);
    assert!(check_file(&file));
    assert!(matches!(error(&file[..2880]), FootprintError::NotSound));
    assert!(matches!(error(&file[..5759]), FootprintError::NotSound));
    let mut blank = file.clone();
    blank[10..80].fill(b' ');
    assert!(matches!(error(&blank), FootprintError::NotSound));
    let mut short = file;
    short[2880 + 10..2880 + 80].fill(b' ');
    short[2880 + 75..2880 + 80].copy_from_slice(b"'BINT");
    assert!(matches!(error(&short), FootprintError::NotSound));
}

#[test]
fn a_row_that_codes_no_cell_is_passed_over() {
    let file = file_of_cells(&[(0, WIDTH), (2 * WIDTH, 3 * WIDTH)]);
    let first = 4 * 4u64.pow(11);
    assert_eq!(file[5760..5768], first.to_be_bytes());
    assert_eq!(file[5768..5776], (first + 2).to_be_bytes());
    let with_row = |at: usize, row: u64| {
        let mut changed = file.clone();
        changed[at..at + 8].copy_from_slice(&row.to_be_bytes());
        load_footprint_moc(&changed).unwrap()
    };
    for row in [0u64, 1, 2, 3] {
        assert_eq!(cells_inside(&with_row(5760, row)), [2]);
        assert_eq!(cells_inside(&with_row(5768, row)), [0]);
    }
    assert!(is_in_footprint(&with_row(5760, 5).footprint, 4u64.pow(11)));
    assert_eq!(cells_inside(&with_row(5768, first + 7)), [0, 7]);
}

#[test]
fn more_rows_than_there_are_can_be_claimed() {
    let mut file = file_of_cells(&[(0, WIDTH)]);
    let count = 2880 + 4 * 80;
    assert_eq!(&file[count..count + 8], b"NAXIS2  ");
    file[count + 10..count + 30].copy_from_slice(b" 9000000000000000000");
    assert!(matches!(error(&file), FootprintError::NotSound));
    let mut file = file_of_ranges(&[(0, WIDTH)]);
    file[count + 10..count + 30].copy_from_slice(b" 9000000000000000000");
    assert!(!load_footprint_moc(&file).unwrap().consistent);
}

#[test]
fn what_was_read_becomes_a_footprint() {
    let loaded = footprint_of(Ok(Some((MOC_DEPTH, vec![(0, WIDTH)])))).unwrap();
    assert!(loaded.consistent && is_in_footprint(&loaded.footprint, 0));
    assert!(matches!(footprint_of(Ok(None)), Err(FootprintError::OtherKind)));
    match footprint_of(Err("broken".to_string())) {
        Err(FootprintError::Unreadable(words)) => assert_eq!(words, "broken"),
        _ => panic!("read"),
    }
}

#[test]
fn ranges_are_checked() {
    assert!(check_ranges(&vec![]));
    assert!(check_ranges(&vec![(0, 1), (2, 5), (6, 7)]));
    assert!(!check_ranges(&vec![(0, 0)]));
    assert!(!check_ranges(&vec![(0, 2), (2, 3)]));
    assert!(!check_ranges(&vec![(4, 5), (0, 1)]));
    assert!(!check_ranges(&vec![(0, 9), (1, 2)]));
}
