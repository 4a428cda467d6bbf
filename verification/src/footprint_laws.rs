//! What a footprint covers: laws on what is read from its file and what it answers.

use crate::footprint::{
    cell_width, check_ranges, consistent, fits_map, footprint_of, footprint_ranges,
    is_in_footprint, load_footprint_moc, FitsMap, Footprint, FootprintError, LoadedFootprint,
    MOC_DEPTH,
};
use crate::fits::{
    blanked, check_file, layout, lemma_blanked, lemma_header_ends_inside, no_cell, reads_cells,
    row_count, row_width, without_empty_rows,
};
use vstd::arithmetic::power2::lemma2_to64_rest;
use vstd::prelude::*;

verus! {

/// Whether ranges are in order: none is empty, and each ends before the next begins.
pub open spec fn in_order(ranges: Seq<(u64, u64)>) -> bool {
    &&& forall|i: int| 0 <= i < ranges.len() ==> (#[trigger] ranges[i]).0 < ranges[i].1
    &&& forall|i: int, j: int|
        0 <= i < j < ranges.len() ==> (#[trigger] ranges[i]).1 < (#[trigger] ranges[j]).0
}

/// A footprint of ranges in order answers for a cell just where one of the ranges covers it whole.
/// A cell is as wide as 2^36 of the smallest cells.
pub proof fn law_a_cell_is_inside_where_a_range_covers_it(
    footprint: Footprint,
    cell: u64,
    r: bool,
)
    requires
        call_ensures(is_in_footprint, (&footprint, cell), r),
        in_order(footprint_ranges(footprint)),
    ensures
        r <==> exists|i: int|
            0 <= i < footprint_ranges(footprint).len() && (#[trigger] footprint_ranges(
                footprint,
            )[i]).0 <= cell * 0x10_0000_0000 && (cell + 1) * 0x10_0000_0000 <= footprint_ranges(
                footprint,
            )[i].1,
{
    lemma2_to64_rest();
    assert(cell_width(MOC_DEPTH) == 0x10_0000_0000);
    assert(consistent(footprint_ranges(footprint)));
}

/// A footprint is made of the ranges that it is given.
pub proof fn law_a_footprint_is_its_ranges(
    depth_max: u8,
    ranges: Vec<(u64, u64)>,
    r: Footprint,
    checked: bool,
)
    requires
        call_ensures(Footprint::new, (depth_max, ranges), r),
        call_ensures(check_ranges, (&ranges,), checked),
    ensures
        footprint_ranges(r) == ranges@,
        checked == in_order(ranges@),
{
}

/// What was read of a file becomes a footprint of its ranges, and it is told whether these are in
/// order; a map of another kind and a file that could not be read become the errors that they are.
pub proof fn law_what_was_read_becomes_a_footprint(
    map: Result<Option<(u8, Vec<(u64, u64)>)>, String>,
    r: Result<LoadedFootprint, FootprintError>,
)
    requires
        call_ensures(footprint_of, (map,), r),
    ensures
        match map {
            Ok(Some((_, ranges))) => {
                &&& r is Ok
                &&& footprint_ranges(r->Ok_0.footprint) == ranges@
                &&& r->Ok_0.consistent == in_order(ranges@)
            },
            Ok(None) => r is Err && r->Err_0 is OtherKind,
            Err(error) => r is Err && r->Err_0 is Unreadable && r->Err_0->Unreadable_0 == error,
        },
{
}

/// A file that is laid out as one is read, its rows that code no cell aside, and becomes a
/// footprint of the ranges that it holds; any other is refused.
pub proof fn law_a_file_becomes_the_footprint_that_it_holds(
    bytes: &[u8],
    sound: bool,
    r: Result<LoadedFootprint, FootprintError>,
)
    requires
        call_ensures(check_file, (bytes,), sound),
        call_ensures(load_footprint_moc, (bytes,), r),
    ensures
        r is Err && r->Err_0 is NotSound <==> !sound,
        sound ==> match fits_map(without_empty_rows(bytes@)) {
            FitsMap::Ranges { ranges, .. } => {
                &&& r is Ok
                &&& footprint_ranges(r->Ok_0.footprint) == ranges
                &&& r->Ok_0.consistent == in_order(ranges)
            },
            FitsMap::OtherKind => r is Err && r->Err_0 is OtherKind,
            FitsMap::Unreadable => r is Err && r->Err_0 is Unreadable,
        },
{
}

/// The number that bytes write, the first byte counting most.
pub open spec fn number_at(bytes: Seq<u8>, at: int, width: int) -> int
    decreases width,
{
    if width <= 0 {
        0
    } else {
        256 * number_at(bytes, at, width - 1) + bytes[at + width - 1]
    }
}

proof fn lemma_number_at(bytes: Seq<u8>, at: int, width: int)
    requires
        0 <= width,
    ensures
        number_at(bytes, at, width) >= 0,
        number_at(bytes, at, width) == 0 <==> forall|i: int|
            at <= i < at + width ==> #[trigger] bytes[i] == 0,
    decreases width,
{
    if width > 0 {
        lemma_number_at(bytes, at, width - 1);
        if number_at(bytes, at, width) != 0 && number_at(bytes, at, width - 1) == 0 {
            assert(bytes[at + width - 1] != 0);
        }
    }
}

proof fn lemma_no_cell(bytes: Seq<u8>, at: int, width: int)
    requires
        1 <= width,
    ensures
        no_cell(bytes, at, width) == (1 <= number_at(bytes, at, width) <= 3),
{
    lemma_number_at(bytes, at, width - 1);
}

proof fn lemma_blanked_rows(bytes: Seq<u8>, at: int, width: int, rows: int, row: int, i: int)
    requires
        0 <= at,
        width == 2 || width == 4 || width == 8,
        0 <= row < rows,
        at + width * row + width <= bytes.len(),
        at + width * row <= i < at + width * row + width,
    ensures
        blanked(bytes, at, width, rows).len() == bytes.len(),
        blanked(bytes, at, width, rows)[i] == (if 1 <= number_at(bytes, at + width * row, width)
            <= 3 {
            0u8
        } else {
            bytes[i]
        }),
    decreases rows,
{
    let next = if no_cell(bytes, at, width) {
        bytes.update(at + width - 1, 0)
    } else {
        bytes
    };
    if row == 0 {
        lemma_no_cell(bytes, at, width);
        lemma_blanked(next, at + width, width, rows - 1);
        assert(blanked(bytes, at, width, rows) == blanked(next, at + width, width, rows - 1));
        assert(next[i] == (if no_cell(bytes, at, width) { 0u8 } else { bytes[i] }));
    } else {
        lemma_blanked_rows(next, at + width, width, rows - 1, row - 1, i);
        let place = at + width * row;
        assert(at + width + width * (row - 1) == place);
        assert(at + width <= place);
        lemma_same_number(bytes, next, place, width);
    }
}

proof fn lemma_same_number(a: Seq<u8>, b: Seq<u8>, at: int, width: int)
    requires
        forall|i: int| at <= i < at + width ==> #[trigger] a[i] == b[i],
    ensures
        number_at(a, at, width) == number_at(b, at, width),
    decreases width,
{
    if width > 0 {
        lemma_same_number(a, b, at, width - 1);
    }
}

/// Of a table of cells just the rows that write 1, 2 or 3 are turned to 0, each of their bytes;
/// every other row is left as it is.
pub proof fn law_rows_from_1_to_3_are_turned_to_0(
    bytes: Seq<u8>,
    header: int,
    data: int,
    row: int,
    i: int,
)
    requires
        layout(bytes) == Some((header, data)),
        reads_cells(bytes, header, data),
        0 <= row < row_count(bytes, header),
        data + row_width(bytes, header) * row + row_width(bytes, header) <= bytes.len(),
        data + row_width(bytes, header) * row <= i < data + row_width(bytes, header) * row
            + row_width(bytes, header),
    ensures
        without_empty_rows(bytes)[i] == (if 1 <= number_at(
            bytes,
            data + row_width(bytes, header) * row,
            row_width(bytes, header),
        ) <= 3 {
            0u8
        } else {
            bytes[i]
        }),
{
    lemma_header_ends_inside(bytes, 0, 3);
    lemma_header_ends_inside(bytes, header, 8);
    lemma_blanked_rows(
        bytes,
        data,
        row_width(bytes, header),
        row_count(bytes, header),
        row,
        i,
    );
}

} // verus!
