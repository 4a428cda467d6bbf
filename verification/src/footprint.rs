//! The part of the sky that the catalogue of point sources covers.

use crate::fits::{
    blank_empty_rows, check_file, readable_file, sound_file, without_empty_rows,
};
use moc::deser::fits::{from_fits_ivoa, MocIdxType, MocQtyType, MocType};
use moc::moc::range::RangeMOC;
use moc::moc::{CellMOCIntoIterator, CellMOCIterator, HasMaxDepth};
use moc::qty::Hpx;
use vstd::arithmetic::power2::{lemma2_to64_rest, pow2};
use vstd::prelude::*;

verus! {

/// The depth of the cells by which a position is looked up.
pub const MOC_DEPTH: u8 = 11;

/// How many cells of that depth there are.
pub const CELLS: u64 = 50331648;

/// A coverage map of `moc`: ranges of the smallest cells, those of depth 29.
#[verifier::external_body]
pub struct Footprint {
    moc: RangeMOC<u64, Hpx<u64>>,
}

/// The ranges of smallest cells that a map covers, each from its first cell up to, and without, its
/// end.
pub uninterp spec fn footprint_ranges(footprint: Footprint) -> Seq<(u64, u64)>;

/// Whether ranges are not empty, in order, and apart from each other.
pub open spec fn consistent(ranges: Seq<(u64, u64)>) -> bool {
    &&& forall|i: int| 0 <= i < ranges.len() ==> (#[trigger] ranges[i]).0 < ranges[i].1
    &&& forall|i: int, j: int|
        0 <= i < j < ranges.len() ==> (#[trigger] ranges[i]).1 < (#[trigger] ranges[j]).0
}

/// Whether one of the ranges covers everything from the start up to the end.
pub open spec fn covered(ranges: Seq<(u64, u64)>, start: int, end: int) -> bool {
    exists|i: int| 0 <= i < ranges.len() && (#[trigger] ranges[i]).0 <= start && end <= ranges[i].1
}

/// How many of the smallest cells a cell of the depth holds.
pub open spec fn cell_width(depth: u8) -> int {
    pow2((2 * (29 - depth)) as nat) as int
}

/// What a file of a coverage map holds.
pub enum FitsMap {
    /// The ranges of a map of the sky with numbers of 64 bits, and the depth that the file gives
    /// it.
    Ranges { depth: u8, ranges: Seq<(u64, u64)> },
    /// A map of another kind.
    OtherKind,
    /// No map.
    Unreadable,
}

/// What the bytes of a file hold, as `from_fits_ivoa` reads them.
pub uninterp spec fn fits_map(bytes: Seq<u8>) -> FitsMap;

/// `from_fits_ivoa` reads a coverage map, and its iterators hand out the depth and the ranges, those
/// of a map made of cells as the cells merge into ranges. What comes out follows from the bytes;
/// the words of an error are left open. The files left out are those on which the reader does not
/// return: the values of the cards that it checks first are missing, a table of cells claims more
/// rows than there is room for, or a row codes no cell and the reader checks for overflow. The
/// ranges are gathered by `map_while`, which reserves nothing for the number of rows that the header
/// claims.
#[verifier::external_body]
fn read_map(bytes: &[u8]) -> (r: Result<Option<(u8, Vec<(u64, u64)>)>, String>)
    requires
        readable_file(bytes@),
    ensures
        match r {
            Ok(Some((depth, ranges))) => fits_map(bytes@) == (FitsMap::Ranges {
                depth,
                ranges: ranges@,
            }),
            Ok(None) => fits_map(bytes@) is OtherKind,
            Err(_) => fits_map(bytes@) is Unreadable,
        },
{
    match from_fits_ivoa(bytes) {
        Ok(MocIdxType::U64(MocQtyType::Hpx(MocType::Ranges(map)))) => {
            Ok(Some((map.depth_max(), map.map_while(|r| Some((r.start, r.end))).collect())))
        },
        Ok(MocIdxType::U64(MocQtyType::Hpx(MocType::Cells(map)))) => {
            let (depth, ranges) = (map.depth_max(), map.into_cell_moc_iter().ranges());
            Ok(Some((depth, ranges.map_while(|r| Some((r.start, r.end))).collect())))
        },
        Ok(_) => Ok(None),
        Err(error) => Err(error.to_string()),
    }
}

/// `RangeMOC::new` makes a map of the ranges as they are given. The depth that it keeps beside them
/// plays no part in what is asked of the map here, and nothing is claimed of it.
#[verifier::external_body]
fn new_map(depth_max: u8, ranges: Vec<(u64, u64)>) -> (r: Footprint)
    ensures
        footprint_ranges(r) == ranges@,
{
    let ranges = ranges.into_iter().map(|(start, end)| start..end).collect();
    Footprint { moc: RangeMOC::new(depth_max, ranges) }
}

/// `RangeMOC::contains_cell` says whether one of the ranges covers the whole cell. It searches the
/// ranges by halves, so of ranges that are empty, out of order or not apart nothing is claimed.
#[verifier::external_body]
fn contains_cell(footprint: &Footprint, depth: u8, cell: u64) -> (r: bool)
    requires
        depth <= 29,
        (cell + 1) * cell_width(depth) <= u64::MAX,
    ensures
        consistent(footprint_ranges(*footprint)) ==> r == covered(
            footprint_ranges(*footprint),
            cell * cell_width(depth),
            (cell + 1) * cell_width(depth),
        ),
{
    footprint.moc.contains_cell(depth, cell)
}

/// Says whether ranges are not empty, in order, and apart from each other.
pub fn check_ranges(ranges: &Vec<(u64, u64)>) -> (r: bool)
    ensures
        r == consistent(ranges@),
{
    let n: usize = ranges.len();
    let mut i: usize = 0;
    while i < n
        invariant
            n == ranges@.len(),
            i <= n,
            consistent(ranges@.take(i as int)),
        decreases n - i,
    {
        let ghost before = ranges@.take(i as int);
        let ghost after = ranges@.take(i + 1);
        assert(forall|k: int| 0 <= k < i ==> before[k] == ranges@[k] && after[k] == ranges@[k]);
        assert(after[i as int] == ranges@[i as int]);
        if ranges[i].0 >= ranges[i].1 {
            assert(!(ranges@[i as int].0 < ranges@[i as int].1));
            return false;
        }
        if i > 0 && ranges[i - 1].1 >= ranges[i].0 {
            assert(!(ranges@[i - 1].1 < ranges@[i as int].0));
            return false;
        }
        assert forall|k: int, m: int| 0 <= k < m < after.len() implies (#[trigger] after[k]).1 < (
        #[trigger] after[m]).0 by {
            if m < i {
                assert(before[k].1 < before[m].0);
            } else if k < i - 1 {
                assert(before[k].1 < before[i - 1].0);
                assert(before[i - 1].0 < before[i - 1].1);
            }
        }
        assert forall|k: int| 0 <= k < after.len() implies (#[trigger] after[k]).0 < after[k].1 by {
            if k < i {
                assert(before[k].0 < before[k].1);
            }
        }
        i += 1;
    }
    assert(ranges@.take(n as int) =~= ranges@);
    true
}

/// A footprint that was read, and whether its ranges are not empty, in order, and apart from each
/// other, as they have to be for the footprint to answer.
pub struct LoadedFootprint {
    pub footprint: Footprint,
    pub consistent: bool,
}

/// Why a file holds no footprint.
#[derive(Debug)]
pub enum FootprintError {
    /// The file is not laid out as one of a coverage map.
    NotSound,
    /// The file holds a map of another kind.
    OtherKind,
    /// The file cannot be read.
    Unreadable(String),
}

/// Whether this is the footprint that a file holds, or why it holds none.
pub open spec fn is_footprint_of(
    loaded: Result<LoadedFootprint, FootprintError>,
    map: FitsMap,
) -> bool {
    match map {
        FitsMap::Ranges { ranges, .. } => {
            &&& loaded is Ok
            &&& footprint_ranges(loaded->Ok_0.footprint) == ranges
            &&& loaded->Ok_0.consistent == consistent(ranges)
        },
        FitsMap::OtherKind => loaded is Err && loaded->Err_0 is OtherKind,
        FitsMap::Unreadable => loaded is Err && loaded->Err_0 is Unreadable,
    }
}

/// Makes a footprint of what was read.
pub fn footprint_of(map: Result<Option<(u8, Vec<(u64, u64)>)>, String>) -> (r: Result<
    LoadedFootprint,
    FootprintError,
>)
    ensures
        match map {
            Ok(Some((depth, ranges))) => is_footprint_of(
                r,
                FitsMap::Ranges { depth, ranges: ranges@ },
            ),
            Ok(None) => is_footprint_of(r, FitsMap::OtherKind),
            Err(error) => r == Err::<LoadedFootprint, FootprintError>(
                FootprintError::Unreadable(error),
            ),
        },
{
    match map {
        Ok(Some((depth, ranges))) => {
            let consistent = check_ranges(&ranges);
            Ok(LoadedFootprint { footprint: Footprint::new(depth, ranges), consistent })
        },
        Ok(None) => Err(FootprintError::OtherKind),
        Err(error) => Err(FootprintError::Unreadable(error)),
    }
}

/// Reads a footprint from the bytes of its file. A row that codes no cell is passed over.
pub fn load_footprint_moc(bytes: &[u8]) -> (r: Result<LoadedFootprint, FootprintError>)
    ensures
        if sound_file(bytes@) {
            is_footprint_of(r, fits_map(without_empty_rows(bytes@)))
        } else {
            r == Err::<LoadedFootprint, FootprintError>(FootprintError::NotSound)
        },
{
    if !check_file(bytes) {
        return Err(FootprintError::NotSound);
    }
    let plain = blank_empty_rows(bytes);
    footprint_of(read_map(plain.as_slice()))
}

impl Footprint {
    /// A map of the ranges of smallest cells.
    pub fn new(depth_max: u8, ranges: Vec<(u64, u64)>) -> (r: Footprint)
        ensures
            footprint_ranges(r) == ranges@,
    {
        new_map(depth_max, ranges)
    }
}

/// Whether the footprint covers the whole cell of the depth by which positions are looked up.
pub fn is_in_footprint(footprint: &Footprint, cell: u64) -> (r: bool)
    requires
        cell < CELLS,
    ensures
        consistent(footprint_ranges(*footprint)) ==> r == covered(
            footprint_ranges(*footprint),
            cell * cell_width(MOC_DEPTH),
            (cell + 1) * cell_width(MOC_DEPTH),
        ),
{
    proof {
        lemma2_to64_rest();
        assert(cell_width(MOC_DEPTH) == 0x10_0000_0000);
    }
    contains_cell(footprint, MOC_DEPTH, cell)
}

} // verus!
