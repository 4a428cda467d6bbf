//! Which files are taken for maps: laws on the places of their headers, cards and rows.

use crate::fits::{
    after_header, card_number, check_file, coding_card, holds_cells, is_end, layout, number_from,
    reads, reads_cells, row_count, row_width, skipped, sound_file, value_start, value_takes,
    white_byte, without_empty_rows, CARD,
};
use crate::footprint_laws::{law_rows_from_1_to_3_are_turned_to_0, number_at};
use vstd::prelude::*;

verus! {

/// Whether the bytes from a place on are these.
pub open spec fn are_at(bytes: Seq<u8>, at: int, expected: Seq<u8>) -> bool {
    &&& at + expected.len() <= bytes.len()
    &&& forall|i: int| 0 <= i < expected.len() ==> bytes[at + i] == #[trigger] expected[i]
}

/// The letters `END` and a blank.
pub open spec fn end_bytes() -> Seq<u8> {
    seq![69, 78, 68, 32]
}

/// The letters `ORDERING`.
pub open spec fn ordering_bytes() -> Seq<u8> {
    seq![79, 82, 68, 69, 82, 73, 78, 71]
}

/// An apostrophe and the letters `NUNIQ`.
pub open spec fn nuniq_bytes() -> Seq<u8> {
    seq![39, 78, 85, 78, 73, 81]
}

/// Whether a byte is a blank, a tabulator, a line feed, a form feed or a carriage return.
pub open spec fn is_blank(b: u8) -> bool {
    b == 32 || b == 9 || b == 10 || b == 12 || b == 13
}

proof fn lemma_end(bytes: Seq<u8>, at: int)
    requires
        0 <= at,
    ensures
        reads(bytes, at, "END "@) == are_at(bytes, at, end_bytes()),
{
    reveal_strlit("END ");
    let text = "END "@;
    let expected = end_bytes();
    assert(text.len() == 4);
    if are_at(bytes, at, expected) {
        assert forall|i: int| 0 <= i < 4 implies bytes[at + i] as char == #[trigger] text[i] by {
            assert(bytes[at + i] == expected[i]);
        }
    }
    if reads(bytes, at, text) {
        assert forall|i: int| 0 <= i < 4 implies bytes[at + i] == #[trigger] expected[i] by {
            assert(bytes[at + i] as char == text[i]);
        }
    }
}

proof fn lemma_ordering(bytes: Seq<u8>, at: int)
    requires
        0 <= at,
    ensures
        reads(bytes, at, "ORDERING"@) == are_at(bytes, at, ordering_bytes()),
{
    reveal_strlit("ORDERING");
    let text = "ORDERING"@;
    let expected = ordering_bytes();
    assert(text.len() == 8);
    if are_at(bytes, at, expected) {
        assert forall|i: int| 0 <= i < 8 implies bytes[at + i] as char == #[trigger] text[i] by {
            assert(bytes[at + i] == expected[i]);
        }
    }
    if reads(bytes, at, text) {
        assert forall|i: int| 0 <= i < 8 implies bytes[at + i] == #[trigger] expected[i] by {
            assert(bytes[at + i] as char == text[i]);
        }
    }
}

proof fn lemma_nuniq(bytes: Seq<u8>, at: int)
    requires
        0 <= at,
    ensures
        reads(bytes, at, "'NUNIQ"@) == are_at(bytes, at, nuniq_bytes()),
{
    reveal_strlit("'NUNIQ");
    let text = "'NUNIQ"@;
    let expected = nuniq_bytes();
    assert(text.len() == 6);
    if are_at(bytes, at, expected) {
        assert forall|i: int| 0 <= i < 6 implies bytes[at + i] as char == #[trigger] text[i] by {
            assert(bytes[at + i] == expected[i]);
        }
    }
    if reads(bytes, at, text) {
        assert forall|i: int| 0 <= i < 6 implies bytes[at + i] == #[trigger] expected[i] by {
            assert(bytes[at + i] as char == text[i]);
        }
    }
}

/// Whether the card of a number, counted from a place, ends a header.
pub open spec fn ends_at(bytes: Seq<u8>, start: int, card: int) -> bool {
    are_at(bytes, start + 80 * card, end_bytes())
}

/// Whether a header takes so many blocks of 2880 bytes: in the last of them, and not before, stands
/// a card that ends it. The first cards are not looked at.
pub open spec fn takes_blocks(bytes: Seq<u8>, start: int, first: int, blocks: int) -> bool {
    &&& 1 <= blocks
    &&& start + 2880 * blocks <= bytes.len()
    &&& exists|card: int|
        36 * (blocks - 1) <= card < 36 * blocks && first <= card && #[trigger] ends_at(
            bytes,
            start,
            card,
        )
    &&& forall|card: int|
        first <= card < 36 * (blocks - 1) ==> !#[trigger] ends_at(bytes, start, card)
}

proof fn lemma_header_blocks(bytes: Seq<u8>, start: int, first: int) -> (blocks: int)
    requires
        0 <= start,
        0 <= first <= 36,
        after_header(bytes, start, first) is Some,
    ensures
        after_header(bytes, start, first) == Some(start + 2880 * blocks),
        takes_blocks(bytes, start, first, blocks),
    decreases bytes.len() - start,
{
    assert forall|card: int| 0 <= card implies #[trigger] is_end(bytes, start, card) == ends_at(
        bytes,
        start,
        card,
    ) by {
        lemma_end(bytes, start + 80 * card);
    }
    if exists|card: int| first <= card < 36 && #[trigger] is_end(bytes, start, card) {
        let card = choose|card: int| first <= card < 36 && #[trigger] is_end(bytes, start, card);
        assert(ends_at(bytes, start, card));
        1
    } else {
        let next = start + 2880;
        let further = lemma_header_blocks(bytes, next, 0);
        let blocks = further + 1;
        let card = choose|card: int|
            36 * (further - 1) <= card < 36 * further && 0 <= card && #[trigger] ends_at(
                bytes,
                next,
                card,
            );
        assert(next + 80 * card == start + 80 * (card + 36));
        assert(ends_at(bytes, start, card + 36));
        assert forall|card: int| first <= card < 36 * (blocks - 1) implies !#[trigger] ends_at(
            bytes,
            start,
            card,
        ) by {
            if card < 36 {
                assert(!is_end(bytes, start, card));
            } else {
                assert(next + 80 * (card - 36) == start + 80 * card);
                assert(!ends_at(bytes, next, card - 36));
            }
        }
        blocks
    }
}

proof fn lemma_blocks_header(bytes: Seq<u8>, start: int, first: int, blocks: int)
    requires
        0 <= start,
        0 <= first <= 36,
        takes_blocks(bytes, start, first, blocks),
    ensures
        after_header(bytes, start, first) == Some(start + 2880 * blocks),
    decreases blocks,
{
    assert forall|card: int| 0 <= card implies #[trigger] is_end(bytes, start, card) == ends_at(
        bytes,
        start,
        card,
    ) by {
        lemma_end(bytes, start + 80 * card);
    }
    let last = choose|card: int|
        36 * (blocks - 1) <= card < 36 * blocks && first <= card && #[trigger] ends_at(
            bytes,
            start,
            card,
        );
    if blocks == 1 {
        assert(is_end(bytes, start, last));
    } else {
        assert forall|card: int| first <= card < 36 implies !#[trigger] is_end(
            bytes,
            start,
            card,
        ) by {
            assert(!ends_at(bytes, start, card));
        }
        let next = start + 2880;
        assert(next + 80 * (last - 36) == start + 80 * last);
        assert(ends_at(bytes, next, last - 36));
        assert forall|card: int| 0 <= card < 36 * (blocks - 2) implies !#[trigger] ends_at(
            bytes,
            next,
            card,
        ) by {
            assert(next + 80 * card == start + 80 * (card + 36));
            assert(!ends_at(bytes, start, card + 36));
        }
        lemma_blocks_header(bytes, next, 0, blocks - 1);
    }
}

/// Whether a place is where the value of a card begins: behind its name and sign, at the first byte
/// that is no blank.
pub open spec fn begins_at(bytes: Seq<u8>, card: int, at: int) -> bool {
    &&& card + 10 <= at < card + 80
    &&& !is_blank(bytes[at])
    &&& forall|i: int| card + 10 <= i < at ==> is_blank(#[trigger] bytes[i])
}

/// Whether the value of a card begins so early that so many bytes are left of the card.
pub open spec fn has_room(bytes: Seq<u8>, card: int, len: int) -> bool {
    exists|at: int| card + 10 <= at <= card + 80 - len && !is_blank(#[trigger] bytes[at])
}

proof fn lemma_skipped(bytes: Seq<u8>, at: int, end: int)
    requires
        at <= end,
    ensures
        at <= skipped(bytes, at, end) <= end,
        forall|i: int| at <= i < skipped(bytes, at, end) ==> is_blank(#[trigger] bytes[i]),
        skipped(bytes, at, end) < end ==> !is_blank(bytes[skipped(bytes, at, end)]),
    decreases end - at,
{
    if at < end && white_byte(bytes[at]) {
        lemma_skipped(bytes, at + 1, end);
    }
}

proof fn lemma_room(bytes: Seq<u8>, card: int, len: int)
    requires
        1 <= len <= 70,
    ensures
        value_takes(bytes, card, len) == has_room(bytes, card, len),
{
    lemma_skipped(bytes, card + 10, card + 80);
    let at = value_start(bytes, card);
    if value_takes(bytes, card, len) {
        assert(!is_blank(bytes[at]));
    }
}

/// Whether the card of a number, counted from the header of the table, says how its rows are coded:
/// no card before it, from the ninth on, says so or ends the header.
pub open spec fn tells_coding(bytes: Seq<u8>, header: int, data: int, card: int) -> bool {
    &&& 8 <= card
    &&& header + 80 * card + 80 <= data
    &&& are_at(bytes, header + 80 * card, ordering_bytes())
    &&& forall|k: int|
        8 <= k < card ==> !#[trigger] ends_at(bytes, header, k) && !are_at(
            bytes,
            header + 80 * k,
            ordering_bytes(),
        )
}

proof fn lemma_coding(bytes: Seq<u8>, header: int, data: int, from: int)
    requires
        0 <= header,
        8 <= from,
        forall|k: int|
            8 <= k < from ==> !#[trigger] ends_at(bytes, header, k) && !are_at(
                bytes,
                header + 80 * k,
                ordering_bytes(),
            ),
    ensures
        match coding_card(bytes, header + 80 * from, data) {
            Some(at) => exists|card: int|
                #![trigger tells_coding(bytes, header, data, card)]
                at == header + 80 * card && tells_coding(bytes, header, data, card),
            None => forall|card: int| !#[trigger] tells_coding(bytes, header, data, card),
        },
    decreases data - (header + 80 * from),
{
    let at = header + 80 * from;
    lemma_end(bytes, at);
    lemma_ordering(bytes, at);
    assert(ends_at(bytes, header, from) == are_at(bytes, at, end_bytes()));
    if at + CARD > data || are_at(bytes, at, end_bytes()) {
        assert forall|card: int| !#[trigger] tells_coding(bytes, header, data, card) by {
            if tells_coding(bytes, header, data, card) {
                if card < from {
                    assert(!ends_at(bytes, header, card));
                } else if card > from {
                    assert(!ends_at(bytes, header, from));
                } else {
                    assert(bytes[at] == end_bytes()[0]) by {
                        assert(bytes[at + 0] == end_bytes()[0]);
                    }
                    assert(bytes[at] == ordering_bytes()[0]) by {
                        assert(bytes[at + 0] == ordering_bytes()[0]);
                    }
                }
            }
        }
    } else if are_at(bytes, at, ordering_bytes()) {
        assert(tells_coding(bytes, header, data, from));
    } else {
        assert(at + CARD == header + 80 * (from + 1));
        assert forall|k: int| 8 <= k < from + 1 implies !#[trigger] ends_at(bytes, header, k)
            && !are_at(bytes, header + 80 * k, ordering_bytes()) by {
            if k == from {
                assert(header + 80 * k == at);
            }
        }
        lemma_coding(bytes, header, data, from + 1);
    }
}

/// The number that digits write from one place up to another.
pub open spec fn written(bytes: Seq<u8>, from: int, to: int) -> int
    decreases to - from,
{
    if to <= from {
        0
    } else {
        10 * written(bytes, from, to - 1) + (bytes[to - 1] - 48)
    }
}

/// Whether digits stand from one place up to another, and none behind them on the card.
pub open spec fn digits_end_at(bytes: Seq<u8>, from: int, to: int, end: int) -> bool {
    &&& from <= to <= end
    &&& forall|i: int| from <= i < to ==> 48 <= #[trigger] bytes[i] <= 57
    &&& to < end ==> !(48 <= bytes[to] <= 57)
}

proof fn lemma_written(bytes: Seq<u8>, from: int, to: int, end: int)
    requires
        from <= to <= end,
        forall|i: int| from <= i < to ==> 48 <= #[trigger] bytes[i] <= 57,
    ensures
        number_from(bytes, from, end, 0) == number_from(
            bytes,
            to,
            end,
            written(bytes, from, to),
        ),
    decreases to - from,
{
    if from < to {
        lemma_written(bytes, from, to - 1, end);
        assert(48 <= bytes[to - 1] <= 57);
    }
}

proof fn lemma_digits_end(bytes: Seq<u8>, from: int, end: int) -> (to: int)
    requires
        from <= end,
    ensures
        digits_end_at(bytes, from, to, end),
    decreases end - from,
{
    if from < end && 48 <= bytes[from] <= 57 {
        lemma_digits_end(bytes, from + 1, end)
    } else {
        from
    }
}

/// Whether a card writes a number: the digits that its value begins with, none for 0.
pub open spec fn writes_number(bytes: Seq<u8>, card: int, n: int) -> bool {
    ||| n == 0 && !has_room(bytes, card, 1)
    ||| exists|at: int, to: int|
        #![trigger begins_at(bytes, card, at), digits_end_at(bytes, at, to, card + 80)]
        begins_at(bytes, card, at) && digits_end_at(bytes, at, to, card + 80) && n == written(
            bytes,
            at,
            to,
        )
}

proof fn lemma_card_number(bytes: Seq<u8>, card: int)
    ensures
        forall|n: int| #[trigger] writes_number(bytes, card, n) <==> n == card_number(bytes, card),
{
    lemma_skipped(bytes, card + 10, card + 80);
    let at = value_start(bytes, card);
    lemma_room(bytes, card, 1);
    if has_room(bytes, card, 1) {
        assert(begins_at(bytes, card, at));
        let to = lemma_digits_end(bytes, at, card + 80);
        lemma_written(bytes, at, to, card + 80);
        assert(card_number(bytes, card) == written(bytes, at, to));
        assert(writes_number(bytes, card, card_number(bytes, card)));
        assert forall|n: int| #[trigger] writes_number(bytes, card, n) implies n == card_number(
            bytes,
            card,
        ) by {
            let (a, b) = choose|a: int, b: int|
                #![trigger begins_at(bytes, card, a), digits_end_at(bytes, a, b, card + 80)]
                begins_at(bytes, card, a) && digits_end_at(bytes, a, b, card + 80) && n == written(
                    bytes,
                    a,
                    b,
                );
            if a < at {
                assert(is_blank(bytes[a]));
            } else if at < a {
                assert(is_blank(bytes[at]));
            }
            lemma_written(bytes, a, b, card + 80);
        }
    } else {
        assert(at == card + 80);
        assert(card_number(bytes, card) == 0);
        assert forall|n: int| #[trigger] writes_number(bytes, card, n) implies n == 0 by {
            if n != 0 {
                let (a, b) = choose|a: int, b: int|
                    #![trigger begins_at(bytes, card, a), digits_end_at(bytes, a, b, card + 80)]
                    begins_at(bytes, card, a) && digits_end_at(bytes, a, b, card + 80) && n
                        == written(bytes, a, b);
                assert(!is_blank(bytes[a]));
            }
        }
    }
}

/// Whether the rows of a table are said to be single cells: the value on its coding begins with an
/// apostrophe and `NUNIQ`.
pub open spec fn says_cells(bytes: Seq<u8>, header: int, data: int) -> bool {
    exists|card: int, at: int|
        #![trigger
            tells_coding(bytes, header, data, card),
            begins_at(bytes, header + 80 * card, at),
        ]
        tells_coding(bytes, header, data, card) && begins_at(bytes, header + 80 * card, at) && at
            + 6 <= header + 80 * card + 80 && are_at(bytes, at, nuniq_bytes())
}

proof fn lemma_says_cells(bytes: Seq<u8>, header: int, data: int)
    requires
        0 <= header,
        data <= bytes.len(),
    ensures
        holds_cells(bytes, header, data) == says_cells(bytes, header, data),
{
    lemma_coding(bytes, header, data, 8);
    match coding_card(bytes, header + 8 * CARD, data) {
        Some(coding) => {
            let card = choose|card: int|
                #![trigger tells_coding(bytes, header, data, card)]
                coding == header + 80 * card && tells_coding(bytes, header, data, card);
            lemma_skipped(bytes, coding + 10, coding + 80);
            let at = value_start(bytes, coding);
            lemma_nuniq(bytes, at);
            if holds_cells(bytes, header, data) {
                assert(begins_at(bytes, header + 80 * card, at));
                assert(says_cells(bytes, header, data));
            }
            if says_cells(bytes, header, data) {
                let (c, a) = choose|c: int, a: int|
                    #![trigger
                        tells_coding(bytes, header, data, c),
                        begins_at(bytes, header + 80 * c, a),
                    ]
                    tells_coding(bytes, header, data, c) && begins_at(bytes, header + 80 * c, a)
                        && a + 6 <= header + 80 * c + 80 && are_at(bytes, a, nuniq_bytes());
                if c < card {
                    assert(!ends_at(bytes, header, c));
                } else if card < c {
                    assert(!ends_at(bytes, header, card));
                }
                assert(c == card);
                if a < at {
                    assert(is_blank(bytes[a]));
                } else if at < a {
                    assert(is_blank(bytes[at]));
                }
            }
        },
        None => {},
    }
}

/// Whether a file is laid out as a map, with a first header and a header of the table of so many
/// blocks: the cards that are read have a value, and where the rows are single cells the header
/// claims no more of them than bytes follow it.
pub open spec fn is_laid_out(bytes: Seq<u8>, blocks: int, table_blocks: int) -> bool {
    let header = 2880 * blocks;
    let data = header + 2880 * table_blocks;
    &&& takes_blocks(bytes, 0, 3, blocks)
    &&& takes_blocks(bytes, header, 8, table_blocks)
    &&& has_room(bytes, 0, 1)
    &&& has_room(bytes, 160, 1)
    &&& has_room(bytes, header, 10)
    &&& has_room(bytes, header + 80, 1)
    &&& has_room(bytes, header + 160, 1)
    &&& has_room(bytes, header + 400, 1)
    &&& has_room(bytes, header + 480, 1)
    &&& has_room(bytes, header + 560, 1)
    &&& says_cells(bytes, header, data) ==> forall|n: int| #[trigger]
        writes_number(bytes, header + 320, n) ==> n <= bytes.len() - data
}

proof fn lemma_laid_out(bytes: Seq<u8>, blocks: int, table_blocks: int)
    requires
        after_header(bytes, 0, 3) == Some(2880 * blocks),
        after_header(bytes, 2880 * blocks, 8) == Some(2880 * blocks + 2880 * table_blocks),
        takes_blocks(bytes, 0, 3, blocks),
        takes_blocks(bytes, 2880 * blocks, 8, table_blocks),
    ensures
        sound_file(bytes) == is_laid_out(bytes, blocks, table_blocks),
{
    let header = 2880 * blocks;
    let data = header + 2880 * table_blocks;
    assert(layout(bytes) == Some((header, data)));
    lemma_room(bytes, 0, 1);
    lemma_room(bytes, 160, 1);
    lemma_room(bytes, header, 10);
    lemma_room(bytes, header + 80, 1);
    lemma_room(bytes, header + 160, 1);
    lemma_room(bytes, header + 400, 1);
    lemma_room(bytes, header + 480, 1);
    lemma_room(bytes, header + 560, 1);
    lemma_says_cells(bytes, header, data);
    lemma_card_number(bytes, header + 320);
    assert(writes_number(bytes, header + 320, row_count(bytes, header)));
}

/// Just the files that are laid out as a map are taken for one.
pub proof fn law_just_the_files_laid_out_as_maps_are_sound(bytes: &[u8], sound: bool)
    requires
        call_ensures(check_file, (bytes,), sound),
    ensures
        sound <==> exists|blocks: int, table_blocks: int| #[trigger]
            is_laid_out(bytes@, blocks, table_blocks),
{
    if sound {
        let blocks = lemma_header_blocks(bytes@, 0, 3);
        let table_blocks = lemma_header_blocks(bytes@, 2880 * blocks, 8);
        lemma_laid_out(bytes@, blocks, table_blocks);
    }
    if exists|blocks: int, table_blocks: int| #[trigger]
        is_laid_out(bytes@, blocks, table_blocks) {
        let (blocks, table_blocks) = choose|blocks: int, table_blocks: int| #[trigger]
            is_laid_out(bytes@, blocks, table_blocks);
        lemma_blocks_header(bytes@, 0, 3, blocks);
        lemma_blocks_header(bytes@, 2880 * blocks, 8, table_blocks);
        lemma_laid_out(bytes@, blocks, table_blocks);
    }
}

/// What is read of a file that is laid out as a map: where its rows are single cells of 2, 4 or 8
/// bytes, each row that writes 1, 2 or 3 is read as 0 and every other as it is; of any other file
/// every byte is read as it is.
pub proof fn law_of_rows_of_cells_those_from_1_to_3_are_read_as_0(
    bytes: Seq<u8>,
    blocks: int,
    table_blocks: int,
    width: int,
    rows: int,
    row: int,
    i: int,
)
    requires
        is_laid_out(bytes, blocks, table_blocks),
        writes_number(bytes, 2880 * blocks + 240, width),
        writes_number(bytes, 2880 * blocks + 320, rows),
    ensures
        ({
            let header = 2880 * blocks;
            let data = header + 2880 * table_blocks;
            let cells = says_cells(bytes, header, data) && (width == 2 || width == 4 || width == 8);
            let at = data + width * row;
            &&& !cells ==> without_empty_rows(bytes) == bytes
            &&& cells && 0 <= row < rows && at + width <= bytes.len() && at <= i < at + width
                ==> without_empty_rows(bytes)[i] == if 1 <= number_at(bytes, at, width) <= 3 {
                0u8
            } else {
                bytes[i]
            }
        }),
{
    let header = 2880 * blocks;
    let data = header + 2880 * table_blocks;
    lemma_blocks_header(bytes, 0, 3, blocks);
    lemma_blocks_header(bytes, header, 8, table_blocks);
    assert(layout(bytes) == Some((header, data)));
    lemma_says_cells(bytes, header, data);
    lemma_card_number(bytes, header + 240);
    lemma_card_number(bytes, header + 320);
    assert(width == row_width(bytes, header));
    assert(rows == row_count(bytes, header));
    let at = data + width * row;
    if reads_cells(bytes, header, data) && 0 <= row < rows && at + width <= bytes.len() && at <= i
        < at + width {
        law_rows_from_1_to_3_are_turned_to_0(bytes, header, data, row, i);
    }
}

} // verus!
