//! Where the account sections of a report are.
//!
//! The text of a report tells: asterisks in the names of accounts are escaped, and no row of a
//! card is a code fence.

use vstd::prelude::*;

use crate::text;

verus! {

/// Whether `row` starts with two asterisks.
pub open spec fn is_marked(row: Seq<char>) -> bool {
    row.len() >= 2 && row[0] == '*' && row[1] == '*'
}

/// Whether two asterisks stand next to each other in `s`, where a backslash and the character
/// behind it count as one that is no asterisk.
pub open spec fn closes_title(s: Seq<char>) -> bool
    decreases s.len(),
{
    if s.len() < 2 {
        false
    } else if s[0] == '\\' {
        closes_title(s.skip(2))
    } else if s[0] == '*' && s[1] == '*' {
        true
    } else {
        closes_title(s.skip(1))
    }
}

/// The first row from `row` on that closes a title.
pub open spec fn next_close(rows: Seq<Seq<char>>, row: int) -> Option<int>
    decreases rows.len() - row,
{
    if row < 0 || row >= rows.len() {
        None
    } else if closes_title(rows[row]) {
        Some(row)
    } else {
        next_close(rows, row + 1)
    }
}

/// The row that closes the title that the row `start` opens with two asterisks.
pub open spec fn title_end(rows: Seq<Seq<char>>, start: int) -> Option<int> {
    if closes_title(rows[start].skip(2)) {
        Some(start)
    } else {
        next_close(rows, start + 1)
    }
}

/// Whether a section may end with `row`: a code fence, with nothing behind it, or an empty row
/// and the title of another section.
pub open spec fn is_last_row(rows: Seq<Seq<char>>, row: int) -> bool {
    &&& rows[row] == seq!['`', '`', '`']
    &&& row + 1 == rows.len() || (row + 2 < rows.len() && rows[row + 1].len() == 0 && is_marked(
        rows[row + 2],
    ))
}

/// The first row from `row` on that a section may end with.
pub open spec fn next_last_row(rows: Seq<Seq<char>>, row: int) -> Option<int>
    decreases rows.len() - row,
{
    if row < 0 || row >= rows.len() {
        None
    } else if is_last_row(rows, row) {
        Some(row)
    } else {
        next_last_row(rows, row + 1)
    }
}

/// The last row of the section that starts with the row `start`. A section starts behind an empty
/// row, with a title between two pairs of asterisks, and ends with the fence behind its card.
pub open spec fn section_end(rows: Seq<Seq<char>>, start: int) -> Option<int> {
    if 0 < start < rows.len() && rows[start - 1].len() == 0 && is_marked(rows[start]) {
        match title_end(rows, start) {
            Some(row) => next_last_row(rows, row + 1),
            None => None,
        }
    } else {
        None
    }
}

/// The sections among the rows from `start` on.
pub open spec fn found(rows: Seq<Seq<char>>, start: int) -> Seq<Seq<Seq<char>>>
    decreases rows.len() - start,
{
    if start < 0 || start >= rows.len() {
        Seq::empty()
    } else {
        proof {
            lemma_section_end(rows, start);
        }
        match section_end(rows, start) {
            Some(end) => seq![rows.subrange(start, end + 1)] + found(rows, end + 1),
            None => found(rows, start + 1),
        }
    }
}

pub proof fn lemma_next_close(rows: Seq<Seq<char>>, row: int)
    ensures
        next_close(rows, row) matches Some(close) ==> row <= close < rows.len(),
    decreases rows.len() - row,
{
    if 0 <= row < rows.len() && !closes_title(rows[row]) {
        lemma_next_close(rows, row + 1);
    }
}

pub proof fn lemma_next_last_row(rows: Seq<Seq<char>>, row: int)
    ensures
        next_last_row(rows, row) matches Some(last) ==> row <= last < rows.len() && is_last_row(
            rows,
            last,
        ),
    decreases rows.len() - row,
{
    if 0 <= row < rows.len() && !is_last_row(rows, row) {
        lemma_next_last_row(rows, row + 1);
    }
}

/// A section has more than one row.
pub proof fn lemma_section_end(rows: Seq<Seq<char>>, start: int)
    ensures
        section_end(rows, start) matches Some(end) ==> start < end < rows.len(),
{
    if section_end(rows, start) is Some {
        lemma_next_close(rows, start + 1);
        lemma_next_last_row(rows, title_end(rows, start)->0 + 1);
    }
}

/// Whether `row` starts with two asterisks.
fn marked(row: &[char]) -> (r: bool)
    ensures
        r == is_marked(row@),
{
    row.len() >= 2 && row[0] == '*' && row[1] == '*'
}

/// Whether a title closes in `row` at or behind the column `from`.
fn closes_behind(row: &[char], from: usize) -> (r: bool)
    requires
        from <= row.len(),
    ensures
        r == closes_title(row@.skip(from as int)),
{
    let mut i: usize = from;
    while row.len() - i >= 2
        invariant
            from <= i <= row.len(),
            closes_title(row@.skip(from as int)) == closes_title(row@.skip(i as int)),
        decreases row.len() - i,
    {
        let ghost rest = row@.skip(i as int);
        proof {
            assert(rest[0] == row@[i as int] && rest[1] == row@[i + 1]);
            assert(rest.skip(2) == row@.skip(i + 2));
            assert(rest.skip(1) == row@.skip(i + 1));
        }
        if row[i] == '\\' {
            i = i + 2;
        } else if row[i] == '*' && row[i + 1] == '*' {
            return true;
        } else {
            i = i + 1;
        }
    }
    false
}

/// The row that closes the title that the row `start` opens with two asterisks.
fn find_title_end(rows: &Vec<Vec<char>>, start: usize) -> (r: Option<usize>)
    requires
        start < rows.len(),
        rows@[start as int]@.len() >= 2,
    ensures
        match r {
            Some(row) => row < rows.len() && title_end(text::views(rows@), start as int) == Some(
                row as int,
            ),
            None => title_end(text::views(rows@), start as int) is None,
        },
{
    let ghost all = text::views(rows@);
    if closes_behind(rows[start].as_slice(), 2) {
        return Some(start);
    }
    let mut i: usize = start + 1;
    while i < rows.len()
        invariant
            start < i <= rows.len(),
            all == text::views(rows@),
            !closes_title(all[start as int].skip(2)),
            next_close(all, start + 1) == next_close(all, i as int),
        decreases rows.len() - i,
    {
        assert(all[i as int].skip(0) == all[i as int]);
        if closes_behind(rows[i].as_slice(), 0) {
            return Some(i);
        }
        i = i + 1;
    }
    None
}

/// The last row of the section that starts with the row `start`.
pub fn find_section_end(rows: &Vec<Vec<char>>, start: usize) -> (r: Option<usize>)
    ensures
        match r {
            Some(end) => start < end < rows.len() && section_end(text::views(rows@), start as int)
                == Some(end as int),
            None => section_end(text::views(rows@), start as int) is None,
        },
{
    let ghost all = text::views(rows@);
    if start == 0 || start >= rows.len() || rows[start - 1].len() != 0 || !marked(
        rows[start].as_slice(),
    ) {
        return None;
    }
    proof {
        lemma_section_end(all, start as int);
    }
    let title = match find_title_end(rows, start) {
        Some(title) => title,
        None => {
            return None;
        },
    };
    let mut i: usize = title + 1;
    while i < rows.len()
        invariant
            title < i <= rows.len(),
            all == text::views(rows@),
            next_last_row(all, title + 1) == next_last_row(all, i as int),
            section_end(all, start as int) == next_last_row(all, title + 1),
            section_end(all, start as int) matches Some(end) ==> start < end < rows.len(),
        decreases rows.len() - i,
    {
        let row = rows[i].as_slice();
        assert(all[i as int] == row@);
        let fence = row.len() == 3 && row[0] == '`' && row[1] == '`' && row[2] == '`';
        proof {
            if fence {
                assert(row@ =~= seq!['`', '`', '`']);
            }
        }
        if fence && (rows.len() - i == 1 || (rows.len() - i > 2 && rows[i + 1].len() == 0 && marked(
            rows[i + 2].as_slice(),
        ))) {
            return Some(i);
        }
        i = i + 1;
    }
    None
}

} // verus!
