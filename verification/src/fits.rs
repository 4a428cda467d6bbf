//! Files of coverage maps, as FITS lays them out: which of them can be handed to the reader, and
//! which of their rows it is spared.
//!
//! A file is made of blocks of 36 cards of 80 bytes. A header ends with the block that holds a card
//! `END`. The first header is without data; the second describes a table, and the blocks after it
//! hold the table. A card has a name of 8 bytes, a sign of 2, and a value.

use vstd::prelude::*;

verus! {

/// How many bytes a card takes.
pub const CARD: usize = 80;

/// How many bytes a block takes.
pub const BLOCK: usize = 2880;

/// White space within ASCII, as `u8::is_ascii_whitespace` sees it.
pub open spec fn white_byte(b: u8) -> bool {
    b == 32 || b == 9 || b == 10 || b == 12 || b == 13
}

/// Whether the text stands at the place.
pub open spec fn reads(bytes: Seq<u8>, at: int, text: Seq<char>) -> bool {
    &&& at + text.len() <= bytes.len()
    &&& forall|i: int| 0 <= i < text.len() ==> bytes[at + i] as char == #[trigger] text[i]
}

/// Where, from a place on, the first byte stands that is no white space.
pub open spec fn skipped(bytes: Seq<u8>, at: int, end: int) -> int
    decreases end - at,
{
    if at < end && white_byte(bytes[at]) {
        skipped(bytes, at + 1, end)
    } else {
        at
    }
}

/// Where the value of a card starts.
pub open spec fn value_start(bytes: Seq<u8>, card: int) -> int {
    skipped(bytes, card + 10, card + CARD)
}

/// Whether the value of a card takes at least so many bytes.
pub open spec fn value_takes(bytes: Seq<u8>, card: int, len: int) -> bool {
    value_start(bytes, card) + len <= card + CARD
}

/// The number that digits write, with what was read before them.
pub open spec fn number_from(bytes: Seq<u8>, at: int, end: int, before: int) -> int
    decreases end - at,
{
    if at < end && 48 <= bytes[at] <= 57 {
        number_from(bytes, at + 1, end, 10 * before + (bytes[at] - 48))
    } else {
        before
    }
}

/// The number that the value of a card begins with.
pub open spec fn card_number(bytes: Seq<u8>, card: int) -> int {
    number_from(bytes, value_start(bytes, card), card + CARD, 0)
}

/// Whether the card of the number in a block ends the header.
pub open spec fn is_end(bytes: Seq<u8>, block: int, card: int) -> bool {
    reads(bytes, block + CARD * card, "END "@)
}

/// Where the blocks of a header end, looked for from a card of a block on.
pub open spec fn after_header(bytes: Seq<u8>, block: int, first: int) -> Option<int>
    decreases bytes.len() - block,
{
    if block + BLOCK > bytes.len() {
        None
    } else if exists|card: int| first <= card < 36 && #[trigger] is_end(bytes, block, card) {
        Some(block + BLOCK)
    } else {
        after_header(bytes, block + BLOCK, 0)
    }
}

/// The card of a header, before its end, that says how the rows of the table are coded, looked for
/// from a card on.
pub open spec fn coding_card(bytes: Seq<u8>, card: int, end: int) -> Option<int>
    decreases end - card,
{
    if card + CARD > end || reads(bytes, card, "END "@) {
        None
    } else if reads(bytes, card, "ORDERING"@) {
        Some(card)
    } else {
        coding_card(bytes, card + CARD, end)
    }
}

/// Whether the rows are single cells, each coded with its depth in one number.
pub open spec fn holds_cells(bytes: Seq<u8>, header: int, data: int) -> bool {
    match coding_card(bytes, header + 8 * CARD, data) {
        Some(coding) => value_takes(bytes, coding, 6) && reads(
            bytes,
            value_start(bytes, coding),
            "'NUNIQ"@,
        ),
        None => false,
    }
}

/// How many bytes a row of the table takes.
pub open spec fn row_width(bytes: Seq<u8>, header: int) -> int {
    card_number(bytes, header + 3 * CARD)
}

/// How many rows the header claims.
pub open spec fn row_count(bytes: Seq<u8>, header: int) -> int {
    card_number(bytes, header + 4 * CARD)
}

/// Whether the rows are cells, of a width that the reader knows.
pub open spec fn reads_cells(bytes: Seq<u8>, header: int, data: int) -> bool {
    let width = row_width(bytes, header);
    holds_cells(bytes, header, data) && (width == 2 || width == 4 || width == 8)
}

/// Whether a row is a number from 1 to 3, which codes no cell.
pub open spec fn no_cell(bytes: Seq<u8>, at: int, width: int) -> bool {
    &&& forall|i: int| at <= i < at + width - 1 ==> #[trigger] bytes[i] == 0
    &&& 1 <= bytes[at + width - 1] <= 3
}

/// Whether no row, of those that are there, codes no cell.
pub open spec fn rows_are_cells(bytes: Seq<u8>, at: int, width: int, rows: int) -> bool
    decreases rows,
{
    rows <= 0 || at + width > bytes.len() || (!no_cell(bytes, at, width) && rows_are_cells(
        bytes,
        at + width,
        width,
        rows - 1,
    ))
}

/// The rows that code no cell turned to 0, of those that are there. Of such a row only the last
/// byte is not 0.
pub open spec fn blanked(bytes: Seq<u8>, at: int, width: int, rows: int) -> Seq<u8>
    decreases rows,
{
    if rows <= 0 || at + width > bytes.len() {
        bytes
    } else if no_cell(bytes, at, width) {
        blanked(bytes.update(at + width - 1, 0), at + width, width, rows - 1)
    } else {
        blanked(bytes, at + width, width, rows - 1)
    }
}

/// Whether a table of cells is no longer than there is room for.
pub open spec fn sound_table(bytes: Seq<u8>, header: int, data: int) -> bool {
    holds_cells(bytes, header, data) ==> row_count(bytes, header) <= bytes.len() - data
}

/// Whether the values of the cards that are read first are there.
pub open spec fn sound_cards(bytes: Seq<u8>, header: int) -> bool {
    &&& value_takes(bytes, 0, 1)
    &&& value_takes(bytes, 2 * CARD, 1)
    &&& value_takes(bytes, header, 10)
    &&& value_takes(bytes, header + CARD, 1)
    &&& value_takes(bytes, header + 2 * CARD, 1)
    &&& value_takes(bytes, header + 5 * CARD, 1)
    &&& value_takes(bytes, header + 6 * CARD, 1)
    &&& value_takes(bytes, header + 7 * CARD, 1)
}

/// Where the header of the table and the table itself begin, where a file has both its headers.
pub open spec fn layout(bytes: Seq<u8>) -> Option<(int, int)> {
    match after_header(bytes, 0, 3) {
        Some(header) => match after_header(bytes, header, 8) {
            Some(data) => Some((header, data)),
            None => None,
        },
        None => None,
    }
}

/// Whether a file has both its headers, with the values that are read from them, and room for its
/// table. On any other file the reader fails or does not return.
pub open spec fn sound_file(bytes: Seq<u8>) -> bool {
    match layout(bytes) {
        Some((header, data)) => sound_cards(bytes, header) && sound_table(bytes, header, data),
        None => false,
    }
}

/// Whether the reader returns on a file, however it was built: with checks for overflow it does not
/// where a row codes no cell.
pub open spec fn readable_file(bytes: Seq<u8>) -> bool {
    match layout(bytes) {
        Some((header, data)) => {
            &&& sound_file(bytes)
            &&& reads_cells(bytes, header, data) ==> rows_are_cells(
                bytes,
                data,
                row_width(bytes, header),
                row_count(bytes, header),
            )
        },
        None => false,
    }
}

/// A file whose rows that code no cell are turned to 0. The reader passes over a row of 0, and,
/// built without checks for overflow, over a row that codes no cell as well.
pub open spec fn without_empty_rows(bytes: Seq<u8>) -> Seq<u8> {
    match layout(bytes) {
        Some((header, data)) => if reads_cells(bytes, header, data) {
            blanked(bytes, data, row_width(bytes, header), row_count(bytes, header))
        } else {
            bytes
        },
        None => bytes,
    }
}

fn is_white(b: u8) -> (r: bool)
    ensures
        r == white_byte(b),
{
    b == 32 || b == 9 || b == 10 || b == 12 || b == 13
}

fn reads_at(bytes: &[u8], at: usize, text: &str) -> (r: bool)
    ensures
        r == reads(bytes@, at as int, text@),
{
    let n: usize = text.unicode_len();
    if at > bytes.len() || bytes.len() - at < n {
        return false;
    }
    let mut i: usize = 0;
    while i < n
        invariant
            n == text@.len(),
            at + n <= bytes.len(),
            i <= n,
            forall|k: int| 0 <= k < i ==> bytes@[at + k] as char == #[trigger] text@[k],
        decreases n - i,
    {
        if bytes[at + i] as char != text.get_char(i) {
            assert(bytes@[at + i] as char != text@[i as int]);
            return false;
        }
        i += 1;
    }
    true
}

fn skip_white(bytes: &[u8], at: usize, end: usize) -> (r: usize)
    requires
        at <= end <= bytes.len(),
    ensures
        r == skipped(bytes@, at as int, end as int),
        at <= r <= end,
{
    let mut i: usize = at;
    while i < end && is_white(bytes[i])
        invariant
            at <= i <= end <= bytes.len(),
            skipped(bytes@, at as int, end as int) == skipped(bytes@, i as int, end as int),
        decreases end - i,
    {
        i += 1;
    }
    i
}

fn find_value(bytes: &[u8], card: usize) -> (r: usize)
    requires
        card + CARD <= bytes.len(),
    ensures
        r == value_start(bytes@, card as int),
        card + 10 <= r <= card + CARD,
{
    skip_white(bytes, card + 10, card + CARD)
}

fn check_value(bytes: &[u8], card: usize, len: usize) -> (r: bool)
    requires
        card + CARD <= bytes.len(),
        len <= CARD,
    ensures
        r == value_takes(bytes@, card as int, len as int),
{
    card + CARD - find_value(bytes, card) >= len
}

proof fn lemma_numbers_grow(bytes: Seq<u8>, at: int, end: int, before: int)
    requires
        before >= 0,
    ensures
        number_from(bytes, at, end, before) >= before,
    decreases end - at,
{
    if at < end && 48 <= bytes[at] <= 57 {
        lemma_numbers_grow(bytes, at + 1, end, 10 * before + (bytes[at] - 48));
    }
}

/// The number that the value of a card begins with, where it is at most the limit.
fn read_number(bytes: &[u8], card: usize, limit: usize) -> (r: Option<usize>)
    requires
        card + CARD <= bytes.len(),
    ensures
        match r {
            Some(n) => n == card_number(bytes@, card as int) && n <= limit,
            None => card_number(bytes@, card as int) > limit,
        },
{
    let end: usize = card + CARD;
    let mut i: usize = find_value(bytes, card);
    let mut n: usize = 0;
    while i < end && 48 <= bytes[i] && bytes[i] <= 57
        invariant
            i <= end == card + CARD <= bytes.len(),
            n <= limit,
            card_number(bytes@, card as int) == number_from(bytes@, i as int, end as int, n as int),
        decreases end - i,
    {
        let next: u128 = 10 * (n as u128) + (bytes[i] - 48) as u128;
        proof {
            lemma_numbers_grow(bytes@, i + 1, end as int, next as int);
        }
        if next > limit as u128 {
            return None;
        }
        n = next as usize;
        i += 1;
    }
    Some(n)
}

fn has_end(bytes: &[u8], block: usize, first: usize) -> (r: bool)
    requires
        block + BLOCK <= bytes.len(),
        first <= 36,
    ensures
        r == exists|card: int| first <= card < 36 && #[trigger] is_end(bytes@, block as int, card),
{
    let mut card: usize = first;
    while card < 36
        invariant
            block + BLOCK <= bytes.len(),
            first <= card <= 36,
            forall|k: int| first <= k < card ==> !#[trigger] is_end(bytes@, block as int, k),
        decreases 36 - card,
    {
        if reads_at(bytes, block + CARD * card, "END ") {
            assert(is_end(bytes@, block as int, card as int));
            return true;
        }
        card += 1;
    }
    false
}

fn find_end(bytes: &[u8], start: usize, first: usize) -> (r: Option<usize>)
    requires
        start <= bytes.len(),
        first <= 36,
    ensures
        match r {
            Some(end) => after_header(bytes@, start as int, first as int) == Some(end as int)
                && start + BLOCK <= end <= bytes.len(),
            None => after_header(bytes@, start as int, first as int) is None,
        },
{
    let mut block: usize = start;
    let mut card: usize = first;
    while bytes.len() - block >= BLOCK
        invariant
            start <= block <= bytes.len(),
            card <= 36,
            after_header(bytes@, start as int, first as int) == after_header(
                bytes@,
                block as int,
                card as int,
            ),
        decreases bytes.len() - block,
    {
        if has_end(bytes, block, card) {
            return Some(block + BLOCK);
        }
        block += BLOCK;
        card = 0;
    }
    None
}

fn find_coding(bytes: &[u8], first: usize, end: usize) -> (r: Option<usize>)
    requires
        first <= end <= bytes.len(),
    ensures
        match r {
            Some(card) => coding_card(bytes@, first as int, end as int) == Some(card as int)
                && card + CARD <= end,
            None => coding_card(bytes@, first as int, end as int) is None,
        },
{
    let mut card: usize = first;
    while end - card >= CARD
        invariant
            first <= card <= end <= bytes.len(),
            coding_card(bytes@, first as int, end as int) == coding_card(
                bytes@,
                card as int,
                end as int,
            ),
        decreases end - card,
    {
        if reads_at(bytes, card, "END ") {
            return None;
        }
        if reads_at(bytes, card, "ORDERING") {
            return Some(card);
        }
        card += CARD;
    }
    None
}

fn check_cells(bytes: &[u8], header: usize, data: usize) -> (r: bool)
    requires
        header + BLOCK <= data <= bytes.len(),
    ensures
        r == holds_cells(bytes@, header as int, data as int),
{
    match find_coding(bytes, header + 8 * CARD, data) {
        Some(coding) => check_value(bytes, coding, 6) && reads_at(
            bytes,
            find_value(bytes, coding),
            "'NUNIQ",
        ),
        None => false,
    }
}

fn check_row(bytes: &[u8], at: usize, width: usize) -> (r: bool)
    requires
        1 <= width,
        at + width <= bytes.len(),
    ensures
        r == !no_cell(bytes@, at as int, width as int),
{
    let last: usize = at + width - 1;
    let mut i: usize = at;
    while i < last
        invariant
            at <= i <= last == at + width - 1 < bytes.len(),
            forall|k: int| at <= k < i ==> #[trigger] bytes@[k] == 0,
        decreases last - i,
    {
        if bytes[i] != 0 {
            assert(bytes@[i as int] != 0);
            return true;
        }
        i += 1;
    }
    !(1 <= bytes[last] && bytes[last] <= 3)
}

fn blank_rows(bytes: &mut Vec<u8>, data: usize, width: usize, rows: usize)
    requires
        1 <= width <= 8,
        data <= old(bytes)@.len(),
    ensures
        final(bytes)@ == blanked(old(bytes)@, data as int, width as int, rows as int),
{
    let mut at: usize = data;
    let mut left: usize = rows;
    while left > 0 && bytes.len() - at >= width
        invariant
            1 <= width <= 8,
            at <= bytes@.len(),
            blanked(old(bytes)@, data as int, width as int, rows as int) == blanked(
                bytes@,
                at as int,
                width as int,
                left as int,
            ),
        decreases left,
    {
        if !check_row(bytes.as_slice(), at, width) {
            bytes.set(at + width - 1, 0);
        }
        at += width;
        left -= 1;
    }
}

fn check_table(bytes: &[u8], header: usize, data: usize) -> (r: bool)
    requires
        header + BLOCK <= data <= bytes.len(),
    ensures
        r == sound_table(bytes@, header as int, data as int),
{
    if !check_cells(bytes, header, data) {
        return true;
    }
    read_number(bytes, header + 4 * CARD, bytes.len() - data).is_some()
}

fn check_cards(bytes: &[u8], header: usize) -> (r: bool)
    requires
        BLOCK <= header,
        header + BLOCK <= bytes.len(),
    ensures
        r == sound_cards(bytes@, header as int),
{
    check_value(bytes, 0, 1) && check_value(bytes, 2 * CARD, 1) && check_value(bytes, header, 10)
        && check_value(bytes, header + CARD, 1) && check_value(bytes, header + 2 * CARD, 1)
        && check_value(bytes, header + 5 * CARD, 1) && check_value(bytes, header + 6 * CARD, 1)
        && check_value(bytes, header + 7 * CARD, 1)
}

fn find_layout(bytes: &[u8]) -> (r: Option<(usize, usize)>)
    ensures
        match r {
            Some((header, data)) => {
                &&& layout(bytes@) == Some((header as int, data as int))
                &&& BLOCK <= header
                &&& header + BLOCK <= data <= bytes.len()
            },
            None => layout(bytes@) is None,
        },
{
    match find_end(bytes, 0, 3) {
        Some(header) => match find_end(bytes, header, 8) {
            Some(data) => Some((header, data)),
            None => None,
        },
        None => None,
    }
}

/// Says whether a file has both its headers, and room for its table.
pub fn check_file(bytes: &[u8]) -> (r: bool)
    ensures
        r == sound_file(bytes@),
{
    match find_layout(bytes) {
        Some((header, data)) => check_cards(bytes, header) && check_table(bytes, header, data),
        None => false,
    }
}

fn copied(bytes: &[u8]) -> (r: Vec<u8>)
    ensures
        r@ == bytes@,
{
    let mut out: Vec<u8> = Vec::new();
    let n: usize = bytes.len();
    for i in 0..n
        invariant
            n == bytes@.len(),
            out@ == bytes@.take(i as int),
    {
        out.push(bytes[i]);
        assert(out@ =~= bytes@.take(i + 1));
    }
    assert(bytes@.take(n as int) =~= bytes@);
    out
}

/// Turns the rows of a sound file that code no cell to 0, so that the reader passes over them.
pub(crate) fn blank_empty_rows(bytes: &[u8]) -> (r: Vec<u8>)
    requires
        sound_file(bytes@),
    ensures
        r@ == without_empty_rows(bytes@),
        readable_file(r@),
{
    let mut out = copied(bytes);
    if let Some((header, data)) = find_layout(bytes) {
        if check_cells(bytes, header, data) {
            let width = read_number(bytes, header + 3 * CARD, 8);
            let rows = read_number(bytes, header + 4 * CARD, bytes.len() - data);
            if let (Some(width), Some(rows)) = (width, rows) {
                if width == 2 || width == 4 || width == 8 {
                    blank_rows(&mut out, data, width, rows);
                }
            }
        }
    }
    proof {
        lemma_becomes_readable(bytes@);
    }
    out
}

/// Whether two files are as long and agree before a place.
pub(crate) open spec fn agree(a: Seq<u8>, b: Seq<u8>, end: int) -> bool {
    &&& a.len() == b.len()
    &&& end <= a.len()
    &&& forall|i: int| 0 <= i < end ==> #[trigger] a[i] == b[i]
}

pub(crate) proof fn lemma_blanked(bytes: Seq<u8>, at: int, width: int, rows: int)
    requires
        0 <= at <= bytes.len(),
        1 <= width,
    ensures
        agree(bytes, blanked(bytes, at, width, rows), at),
        rows_are_cells(blanked(bytes, at, width, rows), at, width, rows),
    decreases rows,
{
    if rows > 0 && at + width <= bytes.len() {
        let next = if no_cell(bytes, at, width) {
            bytes.update(at + width - 1, 0)
        } else {
            bytes
        };
        lemma_blanked(next, at + width, width, rows - 1);
        let out = blanked(bytes, at, width, rows);
        assert(out == blanked(next, at + width, width, rows - 1));
        assert(out[at + width - 1] == next[at + width - 1]);
        assert forall|i: int| 0 <= i < at implies #[trigger] bytes[i] == out[i] by {
            assert(next[i] == out[i]);
        }
        if no_cell(out, at, width) {
            assert forall|i: int| at <= i < at + width - 1 implies #[trigger] bytes[i] == 0 by {
                assert(out[i] == next[i]);
            }
            assert(no_cell(bytes, at, width));
        }
    }
}

proof fn lemma_same_text(a: Seq<u8>, b: Seq<u8>, end: int, at: int, text: Seq<char>)
    requires
        agree(a, b, end),
        0 <= at,
        at + text.len() <= end,
    ensures
        reads(a, at, text) == reads(b, at, text),
{
    assert forall|i: int| 0 <= i < text.len() implies (a[at + i] as char == #[trigger] text[i]) == (
    b[at + i] as char == text[i]) by {}
}

proof fn lemma_same_value(a: Seq<u8>, b: Seq<u8>, end: int, at: int, stop: int)
    requires
        agree(a, b, end),
        0 <= at <= stop <= end,
    ensures
        skipped(a, at, stop) == skipped(b, at, stop),
        at <= skipped(a, at, stop) <= stop,
    decreases stop - at,
{
    if at < stop && white_byte(a[at]) {
        lemma_same_value(a, b, end, at + 1, stop);
    }
}

proof fn lemma_same_digits(a: Seq<u8>, b: Seq<u8>, end: int, at: int, stop: int, before: int)
    requires
        agree(a, b, end),
        0 <= at <= stop <= end,
    ensures
        number_from(a, at, stop, before) == number_from(b, at, stop, before),
    decreases stop - at,
{
    if at < stop && 48 <= a[at] <= 57 {
        lemma_same_digits(a, b, end, at + 1, stop, 10 * before + (a[at] - 48));
    }
}

proof fn lemma_same_card(a: Seq<u8>, b: Seq<u8>, end: int, card: int)
    requires
        agree(a, b, end),
        0 <= card,
        card + CARD <= end,
    ensures
        value_start(a, card) == value_start(b, card),
        card + 10 <= value_start(a, card) <= card + CARD,
        card_number(a, card) == card_number(b, card),
{
    lemma_same_value(a, b, end, card + 10, card + CARD);
    lemma_same_digits(a, b, end, value_start(a, card), card + CARD, 0);
}

proof fn lemma_same_header(a: Seq<u8>, b: Seq<u8>, end: int, block: int, first: int)
    requires
        agree(a, b, end),
        0 <= block,
        0 <= first,
        after_header(a, block, first) is Some,
        after_header(a, block, first)->Some_0 <= end,
    ensures
        after_header(b, block, first) == after_header(a, block, first),
        block + BLOCK <= after_header(a, block, first)->Some_0,
    decreases a.len() - block,
{
    reveal_strlit("END ");
    let here = exists|card: int| first <= card < 36 && #[trigger] is_end(a, block, card);
    if !here {
        lemma_header_ends_inside(a, block + BLOCK, 0);
        lemma_same_header(a, b, end, block + BLOCK, 0);
    }
    assert forall|card: int| first <= card < 36 implies is_end(a, block, card) == #[trigger] is_end(
        b,
        block,
        card,
    ) by {
        lemma_same_text(a, b, end, block + CARD * card, "END "@);
    }
    if here {
        let card = choose|card: int| first <= card < 36 && #[trigger] is_end(a, block, card);
        assert(is_end(b, block, card));
    }
}

pub(crate) proof fn lemma_header_ends_inside(bytes: Seq<u8>, block: int, first: int)
    ensures
        after_header(bytes, block, first) is Some ==> block + BLOCK <= after_header(
            bytes,
            block,
            first,
        )->Some_0 <= bytes.len(),
    decreases bytes.len() - block,
{
    if block + BLOCK <= bytes.len() {
        lemma_header_ends_inside(bytes, block + BLOCK, 0);
    }
}

proof fn lemma_same_coding(a: Seq<u8>, b: Seq<u8>, end: int, card: int)
    requires
        agree(a, b, end),
        0 <= card,
    ensures
        coding_card(a, card, end) == coding_card(b, card, end),
        coding_card(a, card, end) is Some ==> card <= coding_card(a, card, end)->Some_0 <= end
            - CARD,
    decreases end - card,
{
    if card + CARD <= end {
        reveal_strlit("END ");
        reveal_strlit("ORDERING");
        lemma_same_text(a, b, end, card, "END "@);
        lemma_same_text(a, b, end, card, "ORDERING"@);
        lemma_same_coding(a, b, end, card + CARD);
    }
}

/// The headers of a file say the same whatever stands in its table.
proof fn lemma_same_headers(a: Seq<u8>, b: Seq<u8>, header: int, data: int)
    requires
        layout(a) == Some((header, data)),
        agree(a, b, data),
    ensures
        layout(b) == layout(a),
        BLOCK <= header,
        header + BLOCK <= data,
        sound_cards(b, header) == sound_cards(a, header),
        holds_cells(b, header, data) == holds_cells(a, header, data),
        row_width(b, header) == row_width(a, header),
        row_count(b, header) == row_count(a, header),
{
    lemma_header_ends_inside(a, 0, 3);
    lemma_header_ends_inside(a, header, 8);
    lemma_same_header(a, b, data, 0, 3);
    lemma_same_header(a, b, data, header, 8);
    lemma_same_card(a, b, data, 0);
    lemma_same_card(a, b, data, 2 * CARD);
    lemma_same_card(a, b, data, header);
    lemma_same_card(a, b, data, header + CARD);
    lemma_same_card(a, b, data, header + 2 * CARD);
    lemma_same_card(a, b, data, header + 3 * CARD);
    lemma_same_card(a, b, data, header + 4 * CARD);
    lemma_same_card(a, b, data, header + 5 * CARD);
    lemma_same_card(a, b, data, header + 6 * CARD);
    lemma_same_card(a, b, data, header + 7 * CARD);
    lemma_same_coding(a, b, data, header + 8 * CARD);
    if let Some(coding) = coding_card(a, header + 8 * CARD, data) {
        lemma_same_card(a, b, data, coding);
        if value_takes(a, coding, 6) {
            reveal_strlit("'NUNIQ");
            lemma_same_text(a, b, data, value_start(a, coding), "'NUNIQ"@);
        }
    }
}

proof fn lemma_becomes_readable(bytes: Seq<u8>)
    requires
        sound_file(bytes),
    ensures
        readable_file(without_empty_rows(bytes)),
{
    let (header, data) = layout(bytes)->Some_0;
    lemma_header_ends_inside(bytes, 0, 3);
    lemma_header_ends_inside(bytes, header, 8);
    if reads_cells(bytes, header, data) {
        lemma_blanked(bytes, data, row_width(bytes, header), row_count(bytes, header));
        lemma_same_headers(bytes, without_empty_rows(bytes), header, data);
    }
}

/// A file that the reader returns on is handed to it as it is.
pub proof fn law_a_readable_file_is_left_alone(bytes: Seq<u8>)
    requires
        readable_file(bytes),
    ensures
        without_empty_rows(bytes) == bytes,
{
    let (header, data) = layout(bytes)->Some_0;
    lemma_nothing_to_blank(bytes, data, row_width(bytes, header), row_count(bytes, header));
}

proof fn lemma_nothing_to_blank(bytes: Seq<u8>, at: int, width: int, rows: int)
    ensures
        rows_are_cells(bytes, at, width, rows) ==> blanked(bytes, at, width, rows) == bytes,
    decreases rows,
{
    if rows > 0 {
        lemma_nothing_to_blank(bytes, at + width, width, rows - 1);
    }
}

/// Turning rows to 0 changes nothing of a file but its table.
pub proof fn law_only_the_table_is_changed(bytes: Seq<u8>, header: int, data: int)
    requires
        sound_file(bytes),
        layout(bytes) == Some((header, data)),
    ensures
        layout(without_empty_rows(bytes)) == layout(bytes),
        without_empty_rows(bytes).len() == bytes.len(),
        without_empty_rows(bytes).take(data) == bytes.take(data),
{
    lemma_header_ends_inside(bytes, 0, 3);
    lemma_header_ends_inside(bytes, header, 8);
    if reads_cells(bytes, header, data) {
        let out = without_empty_rows(bytes);
        lemma_blanked(bytes, data, row_width(bytes, header), row_count(bytes, header));
        lemma_same_headers(bytes, out, header, data);
        assert(out.take(data) =~= bytes.take(data));
    }
}

} // verus!
