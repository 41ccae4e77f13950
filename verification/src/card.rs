//! Status cards: the boxes that Codex draws on its screen, and the figures they show.

use vstd::prelude::*;

use crate::text;
use crate::text::{chars_of, copy_range, find_row, index_of, lines_of, text_of, trimmed_end};

verus! {

/// Whether `c` stands in `row` behind the column `col`.
pub open spec fn stands_behind(row: Seq<char>, col: int, c: char) -> bool {
    exists|k: int| col < k < row.len() && #[trigger] row[k] == c
}

/// The column at which a box opens in `row`: that of its first upper left corner, where an
/// upper right corner stands behind it.
pub open spec fn opening(row: Seq<char>) -> Option<int> {
    let col = text::first_index(row, '╭') as int;
    if col < row.len() && stands_behind(row, col, '╮') {
        Some(col)
    } else {
        None
    }
}

/// Whether a box that opened at the column `col` closes in `row`.
pub open spec fn closes(row: Seq<char>, col: int) -> bool {
    0 <= col < row.len() && row[col] == '╰' && stands_behind(row, col, '╯')
}

/// The first row from `row` on in which a box that opened at the column `col` closes.
pub open spec fn closing_row(rows: Seq<Seq<char>>, col: int, row: int) -> Option<int>
    decreases rows.len() - row,
{
    if row < 0 || row >= rows.len() {
        None
    } else if closes(rows[row], col) {
        Some(row)
    } else {
        closing_row(rows, col, row + 1)
    }
}

/// The row in which the box that opens in the row `start` closes.
pub open spec fn card_end(rows: Seq<Seq<char>>, start: int) -> Option<int> {
    match opening(rows[start]) {
        Some(col) => closing_row(rows, col, start + 1),
        None => None,
    }
}

/// The last of the first `count` rows in which a box opens that also closes.
pub open spec fn last_card_start(rows: Seq<Seq<char>>, count: int) -> Option<int>
    decreases count,
{
    if count <= 0 {
        None
    } else if card_end(rows, count - 1) is Some {
        Some(count - 1)
    } else {
        last_card_start(rows, count - 1)
    }
}

/// `row` from the column `col` on, without the white space at its end.
pub open spec fn cropped_row(row: Seq<char>, col: int) -> Seq<char> {
    if col <= row.len() {
        text::trim_end(row.skip(col))
    } else {
        Seq::empty()
    }
}

/// The rows from `start` to `end`, both among them, cropped at the column `col`.
pub open spec fn cropped_rows(rows: Seq<Seq<char>>, start: int, end: int, col: int) -> Seq<
    Seq<char>,
> {
    Seq::new((end + 1 - start) as nat, |i: int| cropped_row(rows[start + i], col))
}

/// The last complete box on `screen`, row by row.
pub open spec fn last_complete_card(screen: Seq<char>) -> Option<Seq<char>> {
    let rows = text::lines(screen);
    match last_card_start(rows, rows.len() as int) {
        Some(start) => Some(
            text::join(
                cropped_rows(
                    rows,
                    start,
                    card_end(rows, start)->Some_0,
                    opening(rows[start])->Some_0,
                ),
                seq!['\n'],
            ),
        ),
        None => None,
    }
}

/// Whether `c` stands in `row` behind the column `col`.
fn has_behind(row: &[char], col: usize, c: char) -> (r: bool)
    requires
        col < row.len(),
    ensures
        r == stands_behind(row@, col as int, c),
{
    let mut k: usize = col + 1;
    while k < row.len()
        invariant
            col < k <= row.len(),
            forall|j: int| col < j < k ==> row@[j] != c,
        decreases row.len() - k,
    {
        if row[k] == c {
            return true;
        }
        k = k + 1;
    }
    false
}

/// The row in which the box that opens in the row `start` closes, and the column of its left
/// edge.
fn find_card(rows: &Vec<Vec<char>>, start: usize) -> (r: Option<(usize, usize)>)
    requires
        start < rows.len(),
    ensures
        match r {
            Some((end, col)) => start < end < rows.len() && opening(text::views(rows@)[start as int])
                == Some(col as int) && card_end(text::views(rows@), start as int) == Some(end as int),
            None => card_end(text::views(rows@), start as int) is None,
        },
{
    let ghost all = text::views(rows@);
    let col = index_of(rows[start].as_slice(), '╭');
    if col >= rows[start].len() || !has_behind(rows[start].as_slice(), col, '╮') {
        return None;
    }
    let mut end: usize = start + 1;
    while end < rows.len()
        invariant
            start < end <= rows.len(),
            all == text::views(rows@),
            opening(all[start as int]) == Some(col as int),
            closing_row(all, col as int, start + 1) == closing_row(all, col as int, end as int),
        decreases rows.len() - end,
    {
        let row = rows[end].as_slice();
        assert(all[end as int] == row@);
        if col < row.len() && row[col] == '╰' && has_behind(row, col, '╯') {
            return Some((end, col));
        }
        end = end + 1;
    }
    None
}

/// The rows from `start` to `end`, cropped at the column `col` and joined by newlines.
fn crop(rows: &Vec<Vec<char>>, start: usize, end: usize, col: usize) -> (r: String)
    requires
        start <= end < rows.len(),
    ensures
        r@ == text::join(
            cropped_rows(text::views(rows@), start as int, end as int, col as int),
            seq!['\n'],
        ),
{
    let ghost all = text::views(rows@);
    let ghost wanted = cropped_rows(all, start as int, end as int, col as int);
    let mut out: Vec<char> = Vec::new();
    let mut row: usize = start;
    while row <= end
        invariant
            start <= row <= end + 1,
            end < rows.len(),
            all == text::views(rows@),
            wanted == cropped_rows(all, start as int, end as int, col as int),
            out@ == text::join(wanted.take(row - start), seq!['\n']),
        decreases end + 1 - row,
    {
        let ghost done = wanted.take(row - start);
        let ghost before = out@;
        if row > start {
            out.push('\n');
        }
        let cells = rows[row].as_slice();
        let mut piece: Vec<char> = Vec::new();
        if col <= cells.len() {
            let shown = copy_range(cells, col, cells.len());
            assert(shown@ == cells@.skip(col as int));
            piece = trimmed_end(shown.as_slice());
        }
        assert(piece@ == wanted[row - start]);
        let ghost ahead = out@;
        out.append(&mut piece);
        proof {
            let next = wanted.take(row - start + 1);
            assert(next.drop_last() == done);
            assert(next.last() == wanted[row - start]);
            if row > start {
                assert(ahead == before + seq!['\n']);
            } else {
                assert(done.len() == 0);
                assert(out@ == wanted[0]);
            }
        }
        row = row + 1;
    }
    assert(wanted.take(row - start) == wanted);
    text_of(out.as_slice())
}

proof fn lemma_closing_row(rows: Seq<Seq<char>>, col: int, row: int)
    ensures
        closing_row(rows, col, row) matches Some(end) ==> row <= end < rows.len() && closes(
            rows[end],
            col,
        ),
    decreases rows.len() - row,
{
    if 0 <= row < rows.len() && !closes(rows[row], col) {
        lemma_closing_row(rows, col, row + 1);
    }
}

proof fn lemma_last_card_start(rows: Seq<Seq<char>>, count: int)
    requires
        count <= rows.len(),
    ensures
        match last_card_start(rows, count) {
            Some(start) => 0 <= start < count && card_end(rows, start) is Some && forall|i: int|
                start < i < count ==> (#[trigger] card_end(rows, i)) is None,
            None => forall|i: int| 0 <= i < count ==> (#[trigger] card_end(rows, i)) is None,
        },
    decreases count,
{
    if count > 0 && card_end(rows, count - 1) is None {
        lemma_last_card_start(rows, count - 1);
    }
}

/// A complete box is found wherever there is one on the screen, and no other complete box opens
/// below the one that is found.
pub proof fn law_last_complete_box_is_found(screen: Seq<char>)
    ensures
        ({
            let rows = text::lines(screen);
            match last_card_start(rows, rows.len() as int) {
                Some(start) => last_complete_card(screen) is Some && 0 <= start < rows.len()
                    && card_end(rows, start) is Some && forall|i: int|
                    start < i < rows.len() ==> (#[trigger] card_end(rows, i)) is None,
                None => last_complete_card(screen) is None && forall|i: int|
                    0 <= i < rows.len() ==> (#[trigger] card_end(rows, i)) is None,
            }
        }),
{
    let rows = text::lines(screen);
    lemma_last_card_start(rows, rows.len() as int);
}

/// The lines of a card are the rows of the box on the screen, all of them and whatever they
/// show, from the left edge of the box on and without white space at their ends.
pub proof fn law_card_keeps_every_row(screen: Seq<char>, start: int)
    requires
        last_card_start(text::lines(screen), text::lines(screen).len() as int) == Some(start),
    ensures
        ({
            let rows = text::lines(screen);
            let end = card_end(rows, start)->Some_0;
            let col = opening(rows[start])->Some_0;
            &&& last_complete_card(screen) is Some
            &&& start < end < rows.len()
            &&& text::lines(last_complete_card(screen)->Some_0) == cropped_rows(
                rows,
                start,
                end,
                col,
            )
        }),
{
    let rows = text::lines(screen);
    lemma_last_card_start(rows, rows.len() as int);
    let col = opening(rows[start])->Some_0;
    let end = card_end(rows, start)->Some_0;
    lemma_closing_row(rows, col, start + 1);
    let cropped = cropped_rows(rows, start, end, col);
    text::lemma_first_index(rows[start], '╭');
    assert forall|i: int| 0 <= i < cropped.len() implies text::is_one_line(#[trigger] cropped[i])
        && (cropped[i].len() > 0 ==> cropped[i].last() != '\r') by {
        let row = rows[start + i];
        text::lemma_lines_are_lines(screen, start + i);
        if col <= row.len() {
            let shown = row.skip(col);
            text::lemma_trim_end(shown);
            assert forall|j: int| 0 <= j < cropped[i].len() implies #[trigger] cropped[i][j]
                != '\n' by {
                assert(cropped[i][j] == shown[j]);
                assert(shown[j] == row[col + j]);
            }
        }
    }
    let bottom = rows[end].skip(col);
    text::lemma_trim_end(bottom);
    assert(bottom[0] == '╰');
    assert(cropped.last() == text::trim_end(bottom));
    assert(cropped.last().len() > 0);
    text::lemma_lines_of_join(cropped);
}

/// The last complete box on a screen. Its rows are kept whole, whatever they show, but for
/// what stands left of the box and for white space at their ends.
pub fn extract_last_complete_card(screen: &str) -> (r: Option<String>)
    ensures
        match r {
            Some(card) => last_complete_card(screen@) == Some(card@),
            None => last_complete_card(screen@) is None,
        },
{
    let rows = lines_of(chars_of(screen).as_slice());
    let ghost all = text::views(rows@);
    let mut count: usize = rows.len();
    while count > 0
        invariant
            count <= rows.len(),
            all == text::views(rows@),
            all == text::lines(screen@),
            last_card_start(all, all.len() as int) == last_card_start(all, count as int),
        decreases count,
    {
        if let Some((end, col)) = find_card(&rows, count - 1) {
            return Some(crop(&rows, count - 1, end, col));
        }
        count = count - 1;
    }
    None
}

/// The digits at the end of `s`.
pub open spec fn digits_at_end(s: Seq<char>) -> Seq<char>
    decreases s.len(),
{
    if s.len() > 0 && text::is_digit(s.last()) {
        digits_at_end(s.drop_last()).push(s.last())
    } else {
        Seq::empty()
    }
}

/// The number that `digits` denote, where there is one and it fits in eight bits.
pub open spec fn small_number(digits: Seq<char>) -> Option<u8> {
    if digits.len() > 0 && text::decimal_value(digits) <= 255 {
        Some(text::decimal_value(digits) as u8)
    } else {
        None
    }
}

/// The number before the first percent sign of the first line of `status` that contains
/// `label`. Where that line has no percent sign, it is the number at its end.
pub open spec fn percent_left(status: Seq<char>, label: Seq<char>) -> Option<u8> {
    match text::first_row_with(text::lines(status), label) {
        Some(row) => small_number(digits_at_end(row.take(text::first_index(row, '%') as int))),
        None => None,
    }
}

proof fn lemma_decimal_value_grows(digits: Seq<char>, n: int)
    requires
        0 <= n <= digits.len(),
        forall|j: int| 0 <= j < digits.len() ==> text::is_digit(digits[j]),
    ensures
        text::decimal_value(digits.take(n)) <= text::decimal_value(digits),
    decreases digits.len() - n,
{
    if n < digits.len() {
        lemma_decimal_value_grows(digits, n + 1);
        assert(digits.take(n + 1).drop_last() == digits.take(n));
    } else {
        assert(digits.take(n) == digits);
    }
}

/// The number that `digits` denote, where it fits in eight bits.
fn read_small_number(digits: &[char]) -> (r: Option<u8>)
    requires
        forall|j: int| 0 <= j < digits@.len() ==> text::is_digit(digits@[j]),
    ensures
        r == small_number(digits@),
{
    if digits.len() == 0 {
        return None;
    }
    let mut value: u16 = 0;
    let mut i: usize = 0;
    while i < digits.len()
        invariant
            i <= digits.len(),
            value <= 255,
            value == text::decimal_value(digits@.take(i as int)),
            forall|j: int| 0 <= j < digits@.len() ==> text::is_digit(digits@[j]),
        decreases digits.len() - i,
    {
        assert(text::is_digit(digits@[i as int]));
        assert(digits@.take(i + 1).drop_last() == digits@.take(i as int));
        value = value * 10 + (digits[i] as u32 - 0x30) as u16;
        if value > 255 {
            proof {
                lemma_decimal_value_grows(digits@, i + 1);
            }
            return None;
        }
        i = i + 1;
    }
    assert(digits@.take(i as int) == digits@);
    Some(value as u8)
}

/// The percentage in the line of a status card that carries `label`.
pub fn parse_percent_left(status: &str, label: &str) -> (r: Option<u8>)
    ensures
        r == percent_left(status@, label@),
{
    let rows = lines_of(chars_of(status).as_slice());
    match find_row(&rows, chars_of(label).as_slice()) {
        Some(k) => {
            let row = rows[k].as_slice();
            let stop = index_of(row, '%');
            proof {
                text::lemma_first_index(row@, '%');
            }
            let mut start: usize = stop;
            let ghost before = row@.take(stop as int);
            assert(row@.subrange(stop as int, stop as int) == Seq::<char>::empty());
            assert(digits_at_end(before) + Seq::<char>::empty() == digits_at_end(before));
            while start > 0 && row[start - 1] >= '0' && row[start - 1] <= '9'
                invariant
                    start <= stop <= row.len(),
                    before == row@.take(stop as int),
                    forall|j: int| start <= j < stop ==> text::is_digit(row@[j]),
                    digits_at_end(before) == digits_at_end(row@.take(start as int)) + row@.subrange(
                        start as int,
                        stop as int,
                    ),
                decreases start,
            {
                let ghost head = row@.take(start as int);
                assert(head.drop_last() == row@.take(start - 1));
                assert(digits_at_end(head) == digits_at_end(head.drop_last()).push(
                    row@[start - 1],
                ));
                assert(digits_at_end(head.drop_last()).push(row@[start - 1]) + row@.subrange(
                    start as int,
                    stop as int,
                ) == digits_at_end(head.drop_last()) + row@.subrange(start - 1, stop as int));
                start = start - 1;
            }
            let digits = copy_range(row, start, stop);
            assert(digits@ == digits_at_end(before));
            read_small_number(digits.as_slice())
        },
        None => None,
    }
}

/// Whether a box is drawn on `rows`: its upper corners stand in the row `start`, the left one in the
/// column `col`, and its lower corners in the row `end`, the left one in the same column. The upper
/// left corner is the first in its row, and no row between has the lower corners.
pub open spec fn draws_box(rows: Seq<Seq<char>>, start: int, end: int, col: int) -> bool {
    &&& 0 <= start < end < rows.len()
    &&& 0 <= col < rows[start].len()
    &&& rows[start][col] == '╭'
    &&& forall|k: int| 0 <= k < col ==> rows[start][k] != '╭'
    &&& exists|k: int| col < k < rows[start].len() && #[trigger] rows[start][k] == '╮'
    &&& has_lower_corners(rows[end], col)
    &&& forall|j: int| start < j < end ==> !has_lower_corners(#[trigger] rows[j], col)
}

/// Whether a lower left corner stands in `row` in the column `col`, and a lower right one behind it.
pub open spec fn has_lower_corners(row: Seq<char>, col: int) -> bool {
    &&& col < row.len()
    &&& row[col] == '╰'
    &&& exists|k: int| col < k < row.len() && #[trigger] row[k] == '╯'
}

proof fn lemma_closing_row_is(rows: Seq<Seq<char>>, col: int, row: int, end: int)
    requires
        0 <= row <= end < rows.len(),
        closes(rows[end], col),
        forall|j: int| row <= j < end ==> !closes(#[trigger] rows[j], col),
    ensures
        closing_row(rows, col, row) == Some(end),
    decreases end - row,
{
    if row < end {
        assert(!closes(rows[row], col));
        lemma_closing_row_is(rows, col, row + 1, end);
    }
}

proof fn lemma_first_closing_row(rows: Seq<Seq<char>>, col: int, row: int)
    requires
        0 <= row,
    ensures
        closing_row(rows, col, row) matches Some(end) ==> forall|j: int|
            row <= j < end ==> !closes(#[trigger] rows[j], col),
    decreases rows.len() - row,
{
    if row < rows.len() && !closes(rows[row], col) {
        lemma_first_closing_row(rows, col, row + 1);
    }
}

proof fn lemma_drawn_box(rows: Seq<Seq<char>>, start: int, end: int, col: int)
    requires
        draws_box(rows, start, end, col),
    ensures
        opening(rows[start]) == Some(col),
        card_end(rows, start) == Some(end),
{
    text::lemma_first_index_is(rows[start], '╭', col);
    assert(stands_behind(rows[start], col, '╮'));
    assert forall|j: int| start + 1 <= j < end implies !closes(#[trigger] rows[j], col) by {
        assert(!has_lower_corners(rows[j], col));
    }
    assert(closes(rows[end], col));
    lemma_closing_row_is(rows, col, start + 1, end);
}

proof fn lemma_found_box(rows: Seq<Seq<char>>, start: int)
    requires
        0 <= start < rows.len(),
        card_end(rows, start) is Some,
    ensures
        opening(rows[start]) is Some,
        draws_box(rows, start, card_end(rows, start)->0, opening(rows[start])->0),
{
    let col = opening(rows[start])->0;
    let end = card_end(rows, start)->0;
    text::lemma_first_index(rows[start], '╭');
    lemma_closing_row(rows, col, start + 1);
    lemma_first_closing_row(rows, col, start + 1);
    assert forall|j: int| start < j < end implies !has_lower_corners(#[trigger] rows[j], col) by {
        assert(!closes(rows[j], col));
    }
}

/// Each line of the card is all of its row on the screen, from the left edge of the box on, but for
/// white space at the end of the row. The box is any that no other one starts below.
pub proof fn law_rows_of_the_card_are_whole(
    screen: &str,
    card: Option<String>,
    start: int,
    end: int,
    col: int,
    i: int,
) -> (blank: Seq<char>)
    requires
        call_ensures(extract_last_complete_card, (screen,), card),
        draws_box(text::lines(screen@), start, end, col),
        forall|later: int, e: int, c: int|
            start < later ==> !#[trigger] draws_box(text::lines(screen@), later, e, c),
        0 <= i <= end - start,
    ensures
        card is Some,
        text::lines(card->0@).len() == end - start + 1,
        ({
            let row = text::lines(screen@)[start + i];
            let line = text::lines(card->0@)[i];
            &&& col <= row.len() ==> row.skip(col) == line + blank
            &&& col > row.len() ==> line.len() == 0
            &&& line.len() > 0 ==> !text::is_white_space(line.last())
        }),
        forall|k: int| 0 <= k < blank.len() ==> text::is_white_space(#[trigger] blank[k]),
{
    let rows = text::lines(screen@);
    lemma_drawn_box(rows, start, end, col);
    lemma_last_card_start(rows, rows.len() as int);
    let found = last_card_start(rows, rows.len() as int);
    assert(card_end(rows, start) is Some);
    assert(found is Some);
    if found->0 > start {
        lemma_found_box(rows, found->0);
        assert(!draws_box(rows, found->0, card_end(rows, found->0)->0, opening(rows[found->0])->0));
    }
    assert(found == Some(start));
    law_card_keeps_every_row(screen@, start);
    let row = rows[start + i];
    let line = text::lines(card->0@)[i];
    if col <= row.len() {
        let shown = row.skip(col);
        text::lemma_trim_end(shown);
        let blank = shown.skip(line.len() as int);
        assert(shown =~= line + blank);
        blank
    } else {
        Seq::empty()
    }
}

/// There is no card only where no box is drawn on the screen.
pub proof fn law_no_card_only_without_a_box(screen: &str, start: int, end: int, col: int)
    requires
        call_ensures(extract_last_complete_card, (screen,), None::<String>),
    ensures
        !draws_box(text::lines(screen@), start, end, col),
{
    let rows = text::lines(screen@);
    lemma_last_card_start(rows, rows.len() as int);
    if draws_box(rows, start, end, col) {
        lemma_drawn_box(rows, start, end, col);
    }
}

/// A card is the text of its lines: they are joined by newlines, and nothing stands behind the last.
pub proof fn law_card_is_its_lines(screen: &str, card: String)
    requires
        call_ensures(extract_last_complete_card, (screen,), Some(card)),
    ensures
        card@ == text::join(text::lines(card@), seq!['\n']),
{
    let rows = text::lines(screen@);
    lemma_last_card_start(rows, rows.len() as int);
    law_card_keeps_every_row(screen@, last_card_start(rows, rows.len() as int)->0);
}

/// The percentage of a line is the number that stands right before its first percent sign.
pub proof fn law_percentage_is_read(
    status: &str,
    label: &str,
    number: Option<u8>,
    row: int,
    before: Seq<char>,
    digits: Seq<char>,
    behind: Seq<char>,
)
    requires
        call_ensures(parse_percent_left, (status, label), number),
        0 <= row < text::lines(status@).len(),
        text::contains(text::lines(status@)[row], label@),
        forall|k: int|
            0 <= k < row ==> !text::contains(#[trigger] text::lines(status@)[k], label@),
        text::lines(status@)[row] == before + digits + behind,
        forall|k: int| 0 <= k < before.len() ==> #[trigger] before[k] != '%',
        before.len() > 0 ==> !('0' <= before.last() <= '9'),
        forall|k: int| 0 <= k < digits.len() ==> '0' <= #[trigger] digits[k] <= '9',
        behind.len() > 0 ==> behind[0] == '%',
    ensures
        digits.len() == 0 ==> number is None,
        digits.len() > 0 ==> match number {
            Some(n) => text::decimal_value(digits) == n,
            None => text::decimal_value(digits) > 255,
        },
{
    let rows = text::lines(status@);
    let line = rows[row];
    text::lemma_first_row_is(rows, label@, row);
    let stop = before.len() + digits.len();
    assert forall|k: int| 0 <= k < stop implies line[k] != '%' by {
        if k < before.len() {
            assert(line[k] == before[k]);
        } else {
            assert(line[k] == digits[k - before.len()]);
        }
    }
    if behind.len() > 0 {
        assert(line[stop as int] == behind[0]);
    }
    text::lemma_first_index_is(line, '%', stop as int);
    assert(line.take(stop as int) =~= before + digits);
    lemma_digits_at_end_are(before, digits);
}

/// Without a line for the label there is no percentage.
pub proof fn law_no_percentage_without_the_label(status: &str, label: &str, number: Option<u8>)
    requires
        call_ensures(parse_percent_left, (status, label), number),
        forall|k: int|
            0 <= k < text::lines(status@).len() ==> !text::contains(
                #[trigger] text::lines(status@)[k],
                label@,
            ),
    ensures
        number is None,
{
    text::lemma_no_row_has(text::lines(status@), label@);
}

proof fn lemma_digits_at_end_are(before: Seq<char>, digits: Seq<char>)
    requires
        before.len() > 0 ==> !('0' <= before.last() <= '9'),
        forall|k: int| 0 <= k < digits.len() ==> '0' <= #[trigger] digits[k] <= '9',
    ensures
        digits_at_end(before + digits) == digits,
    decreases digits.len(),
{
    if digits.len() > 0 {
        let all = before + digits;
        assert(all.last() == digits.last());
        assert(all.drop_last() =~= before + digits.drop_last());
        lemma_digits_at_end_are(before, digits.drop_last());
        assert(digits.drop_last().push(digits.last()) =~= digits);
    } else {
        assert(before + digits =~= before);
    }
}

} // verus!
