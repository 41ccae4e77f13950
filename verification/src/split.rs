//! Splitting a report into messages that Discord accepts.

use vstd::prelude::*;
use vstd::string::*;

use crate::sections;
use crate::sections::find_section_end;
use crate::text;
use crate::text::{chars_of, copy_range, lines_of, stands_at, text_of};

verus! {

/// The number of characters that Discord allows in one message.
pub const DISCORD_LIMIT: usize = 2_000;

/// The number of characters up to which a message is filled.
pub const SAFE_CHUNK_LIMIT: usize = 1_900;

/// The number of characters up to which a line of an oversized report stays whole.
pub const LONGEST_LINE: usize = 1_884;

/// The number of characters in the title of a message that continues a report.
pub const TITLE_LENGTH: usize = 35;

/// Whether `row` opens or closes a code block.
pub open spec fn is_fence(row: Seq<char>) -> bool {
    text::occurs_at(row, "```"@, 0)
}

/// `row`, cut into pieces of `maximum` characters where it is longer than that.
pub open spec fn expand_row(row: Seq<char>, maximum: int) -> Seq<Seq<char>>
    decreases row.len(),
{
    if row.len() <= maximum || maximum <= 0 {
        seq![row]
    } else {
        seq![row.take(maximum)] + expand_row(row.skip(maximum), maximum)
    }
}

/// `rows`, each cut into pieces of `maximum` characters where it is longer than that.
pub open spec fn expand_rows(rows: Seq<Seq<char>>, maximum: int) -> Seq<Seq<char>>
    decreases rows.len(),
{
    if rows.len() == 0 {
        Seq::empty()
    } else {
        expand_rows(rows.drop_last(), maximum) + expand_row(rows.last(), maximum)
    }
}

/// One message of an oversized report.
pub struct Part {
    /// Whether another message comes before it.
    pub continued: bool,
    /// Whether it starts inside a code block.
    pub reopened: bool,
    /// The rows of the report that it carries.
    pub rows: Seq<Seq<char>>,
    /// Whether it ends inside a code block.
    pub closed: bool,
}

impl Part {
    /// The rows that stand before those of the report: a title, and where the message starts
    /// inside a code block, the opening of one.
    pub open spec fn header(self) -> Seq<Seq<char>> {
        if self.continued && self.reopened {
            seq!["**Codex Usage Monitor (continued)**"@, "```text"@]
        } else if self.continued {
            seq!["**Codex Usage Monitor (continued)**"@]
        } else {
            Seq::empty()
        }
    }

    /// The row that stands behind those of the report where the message ends inside a code
    /// block.
    pub open spec fn footer(self) -> Seq<Seq<char>> {
        if self.closed {
            seq!["```"@]
        } else {
            Seq::empty()
        }
    }

    /// The rows of the message, but for the one that ends a code block.
    pub open spec fn body(self) -> Seq<Seq<char>> {
        self.header() + self.rows
    }

    /// The text of the message.
    pub open spec fn message(self) -> Seq<char> {
        text::join(self.body() + self.footer(), seq!['\n'])
    }

    /// The message with more rows of the report.
    pub open spec fn with_rows(self, rows: Seq<Seq<char>>) -> Part {
        Part { rows: self.rows + rows, ..self }
    }
}

/// The message in which a report starts.
pub open spec fn first_part() -> Part {
    Part { continued: false, reopened: false, rows: Seq::empty(), closed: false }
}

/// Whether `section` fits in a message behind the title of one that continues a report.
pub open spec fn fits(section: Seq<Seq<char>>) -> bool {
    TITLE_LENGTH + 1 + text::join(section, seq!['\n']).len() <= SAFE_CHUNK_LIMIT
}

/// Each of `rows` for itself.
pub open spec fn singles(rows: Seq<Seq<char>>) -> Seq<Seq<Seq<char>>> {
    Seq::new(rows.len(), |k: int| seq![rows[k]])
}

/// The last row of what starts with the row `start`: of a section, or the row itself.
pub open spec fn block_end(rows: Seq<Seq<char>>, start: int) -> int {
    match sections::section_end(rows, start) {
        Some(end) => end,
        None => start,
    }
}

/// The groups of rows that the rows from `start` to `end` go into messages as: together where they
/// are a section that fits in one message, else each for itself, in pieces where it is too long.
pub open spec fn block_groups(rows: Seq<Seq<char>>, start: int, end: int) -> Seq<Seq<Seq<char>>> {
    let block = rows.subrange(start, end + 1);
    if end > start && fits(block) {
        seq![block]
    } else {
        singles(expand_rows(block, LONGEST_LINE as int))
    }
}

/// The groups of rows that the rows from `start` on go into messages as.
pub open spec fn groups(rows: Seq<Seq<char>>, start: int) -> Seq<Seq<Seq<char>>>
    decreases rows.len() - start,
{
    if start < 0 || start >= rows.len() {
        Seq::empty()
    } else {
        proof {
            sections::lemma_section_end(rows, start);
        }
        let end = block_end(rows, start);
        block_groups(rows, start, end) + groups(rows, end + 1)
    }
}

/// Whether what follows `rows` stands inside a code block.
pub open spec fn inside_code(rows: Seq<Seq<char>>) -> bool
    decreases rows.len(),
{
    if rows.len() == 0 {
        false
    } else {
        inside_code(rows.drop_last()) != is_fence(rows.last())
    }
}

/// Whether what follows `group` stands inside a code block, where `group` does if `fenced`.
pub open spec fn fenced_behind(group: Seq<Seq<char>>, fenced: bool) -> bool {
    fenced != inside_code(group)
}

/// Whether `group` no longer fits in the message `current`, which stands inside a code block if
/// `fenced`. Room is kept for the newline before the group, and where the code block goes on
/// behind it, for the row that ends it.
pub open spec fn overflows(current: Part, group: Seq<Seq<char>>, fenced: bool) -> bool {
    &&& current.body().len() > 0
    &&& text::join(current.body(), seq!['\n']).len() + text::join(group, seq!['\n']).len() + 1 + (
    if fenced && fenced_behind(group, fenced) {
        4int
    } else {
        0int
    }) > SAFE_CHUNK_LIMIT
}

/// The message that continues a report with `group`.
pub open spec fn next_part(group: Seq<Seq<char>>, fenced: bool) -> Part {
    Part { continued: true, reopened: fenced, rows: group, closed: false }
}

/// The messages that carry `groups`, of which the first is already filled up to `current`. The
/// next group stands inside a code block if `fenced`.
pub open spec fn fill(current: Part, groups: Seq<Seq<Seq<char>>>, fenced: bool) -> Seq<Part>
    decreases groups.len(),
{
    if groups.len() == 0 {
        if current.body().len() == 0 {
            Seq::empty()
        } else {
            seq![Part { closed: fenced, ..current }]
        }
    } else {
        let behind = fenced_behind(groups[0], fenced);
        if overflows(current, groups[0], fenced) {
            seq![Part { closed: fenced, ..current }] + fill(
                next_part(groups[0], fenced),
                groups.skip(1),
                behind,
            )
        } else {
            fill(current.with_rows(groups[0]), groups.skip(1), behind)
        }
    }
}

/// The messages of an oversized report.
pub open spec fn report_parts(report: Seq<char>) -> Seq<Part> {
    fill(first_part(), groups(text::lines(report), 0), false)
}

/// The texts of `parts`.
pub open spec fn messages(parts: Seq<Part>) -> Seq<Seq<char>> {
    Seq::new(parts.len(), |i: int| parts[i].message())
}

/// The messages of a report: the report itself where it fits in one, else its parts.
pub open spec fn report_messages(report: Seq<char>) -> Seq<Seq<char>> {
    if report.len() <= DISCORD_LIMIT {
        seq![report]
    } else {
        messages(report_parts(report))
    }
}

/// Appends `row` to `out`, cut into pieces of `maximum` characters where it is longer.
fn push_pieces(out: &mut Vec<String>, row: &[char], maximum: usize)
    requires
        maximum > 0,
    ensures
        text::texts(final(out)@) == text::texts(old(out)@) + expand_row(row@, maximum as int),
{
    let ghost before = text::texts(out@);
    let ghost whole = row@;
    let mut start: usize = 0;
    assert(whole.skip(0) == whole);
    while row.len() - start > maximum
        invariant
            start <= row.len(),
            maximum > 0,
            whole == row@,
            before + expand_row(whole, maximum as int) == text::texts(out@) + expand_row(
                whole.skip(start as int),
                maximum as int,
            ),
        decreases row.len() - start,
    {
        let ghost held = text::texts(out@);
        let ghost rest = whole.skip(start as int);
        let piece = text_of(copy_range(row, start, start + maximum).as_slice());
        out.push(piece);
        proof {
            assert(piece@ == rest.take(maximum as int));
            assert(rest.skip(maximum as int) == whole.skip(start + maximum));
            assert(text::texts(out@) == held.push(piece@));
            assert(held + (seq![piece@] + expand_row(rest.skip(maximum as int), maximum as int))
                == held.push(piece@) + expand_row(rest.skip(maximum as int), maximum as int));
        }
        start = start + maximum;
    }
    let ghost held = text::texts(out@);
    let piece = text_of(copy_range(row, start, row.len()).as_slice());
    out.push(piece);
    proof {
        assert(piece@ == whole.skip(start as int));
        assert(text::texts(out@) == held + seq![piece@]);
    }
}

/// The rows from `start` up to `end`, each cut into pieces of `maximum` characters where it is
/// longer.
fn expand_range(rows: &Vec<Vec<char>>, start: usize, end: usize, maximum: usize) -> (r: Vec<String>)
    requires
        start <= end <= rows.len(),
        maximum > 0,
    ensures
        text::texts(r@) == expand_rows(
            text::views(rows@).subrange(start as int, end as int),
            maximum as int,
        ),
{
    let ghost all = text::views(rows@);
    let mut out: Vec<String> = Vec::new();
    let mut i: usize = start;
    assert(text::texts(out@) == expand_rows(
        all.subrange(start as int, start as int),
        maximum as int,
    ));
    while i < end
        invariant
            start <= i <= end <= rows.len(),
            maximum > 0,
            all == text::views(rows@),
            text::texts(out@) == expand_rows(all.subrange(start as int, i as int), maximum as int),
        decreases end - i,
    {
        push_pieces(&mut out, rows[i].as_slice(), maximum);
        proof {
            let longer = all.subrange(start as int, i + 1);
            assert(longer.drop_last() == all.subrange(start as int, i as int));
            assert(longer.last() == rows@[i as int]@);
        }
        i = i + 1;
    }
    out
}

/// The lines of `text`, each cut into pieces of `maximum` characters where it is longer.
pub fn expand_long_lines(text: &str, maximum: usize) -> (r: Vec<String>)
    requires
        maximum > 0,
    ensures
        text::texts(r@) == expand_rows(text::lines(text@), maximum as int),
{
    let rows = lines_of(chars_of(text).as_slice());
    let count = rows.len();
    assert(text::views(rows@).subrange(0, count as int) == text::views(rows@));
    expand_range(&rows, 0, count, maximum)
}

/// The contents of a list of groups.
pub open spec fn group_texts(groups: Seq<Vec<String>>) -> Seq<Seq<Seq<char>>> {
    Seq::new(groups.len(), |k: int| text::texts(groups[k]@))
}

/// Appends each of `rows` to `out` as a group.
fn push_singles(out: &mut Vec<Vec<String>>, rows: Vec<String>)
    ensures
        group_texts(final(out)@) == group_texts(old(out)@) + singles(text::texts(rows@)),
{
    let ghost before = group_texts(out@);
    let ghost all = text::texts(rows@);
    let mut i: usize = 0;
    assert(singles(all).take(0) == Seq::<Seq<Seq<char>>>::empty());
    assert(group_texts(out@) == before + singles(all).take(0));
    while i < rows.len()
        invariant
            i <= rows.len(),
            all == text::texts(rows@),
            group_texts(out@) == before + singles(all).take(i as int),
        decreases rows.len() - i,
    {
        let ghost held = group_texts(out@);
        let mut group: Vec<String> = Vec::new();
        group.push(rows[i].clone());
        proof {
            assert(text::texts(group@) == seq![all[i as int]]);
        }
        out.push(group);
        proof {
            assert(group_texts(out@) == held.push(seq![all[i as int]]));
            assert(singles(all).take(i + 1) == singles(all).take(i as int).push(
                seq![all[i as int]],
            ));
        }
        i = i + 1;
    }
    assert(singles(all).take(i as int) == singles(all));
}

/// The number of characters in the rows from `start` up to `end` with newlines between them, or
/// `limit` where there are as many or more.
fn joined_length(rows: &Vec<Vec<char>>, start: usize, end: usize, limit: usize) -> (r: usize)
    requires
        start < end <= rows.len(),
    ensures
        ({
            let length = text::join(
                text::views(rows@).subrange(start as int, end as int),
                seq!['\n'],
            ).len();
            r == (if length < limit {
                length as int
            } else {
                limit as int
            })
        }),
{
    let ghost all = text::views(rows@);
    let ghost block = all.subrange(start as int, end as int);
    let first: usize = rows[start].len();
    let mut length: usize = if first < limit {
        first
    } else {
        limit
    };
    let mut i: usize = start + 1;
    assert(block.take(1) == seq![all[start as int]]);
    while i < end
        invariant
            start < i <= end <= rows.len(),
            all == text::views(rows@),
            block == all.subrange(start as int, end as int),
            length <= limit,
            ({
                let done = text::join(block.take(i - start), seq!['\n']).len();
                length == (if done < limit {
                    done as int
                } else {
                    limit as int
                })
            }),
        decreases end - i,
    {
        proof {
            let longer = block.take(i - start + 1);
            assert(longer.drop_last() == block.take(i - start));
            assert(longer.last() == rows@[i as int]@);
        }
        let row: usize = rows[i].len();
        if length < limit && row < limit - length {
            length = length + 1 + row;
        } else {
            length = limit;
        }
        i = i + 1;
    }
    assert(block.take(end - start) == block);
    length
}

/// The groups of rows that a report goes into messages as.
fn group_rows(report: &str) -> (r: Vec<Vec<String>>)
    ensures
        group_texts(r@) == groups(text::lines(report@), 0),
{
    let rows = lines_of(chars_of(report).as_slice());
    let ghost all = text::views(rows@);
    let ghost goal = groups(all, 0);
    let mut out: Vec<Vec<String>> = Vec::new();
    let mut i: usize = 0;
    assert(group_texts(out@) + goal == goal);
    while i < rows.len()
        invariant
            i <= rows.len(),
            all == text::views(rows@),
            group_texts(out@) + groups(all, i as int) == goal,
        decreases rows.len() - i,
    {
        let ghost held = group_texts(out@);
        let end: usize = match find_section_end(&rows, i) {
            Some(end) => end,
            None => i,
        };
        assert(end == block_end(all, i as int));
        let ghost block = all.subrange(i as int, end + 1);
        let limit: usize = SAFE_CHUNK_LIMIT - TITLE_LENGTH;
        if end > i && joined_length(&rows, i, end + 1, limit) < limit {
            let whole = expand_range(&rows, i, end + 1, LONGEST_LINE);
            proof {
                lemma_short_rows_stay(block, LONGEST_LINE as int);
                assert(text::texts(whole@) == block);
            }
            out.push(whole);
            assert(group_texts(out@) == held + seq![block]);
        } else {
            push_singles(&mut out, expand_range(&rows, i, end + 1, LONGEST_LINE));
        }
        proof {
            assert(group_texts(out@) == held + block_groups(all, i as int, end as int));
            assert(held + (block_groups(all, i as int, end as int) + groups(all, end + 1))
                == held + block_groups(all, i as int, end as int) + groups(all, end + 1));
        }
        i = end + 1;
    }
    out
}

proof fn lemma_row_in_join(rows: Seq<Seq<char>>, i: int)
    requires
        0 <= i < rows.len(),
    ensures
        rows[i].len() <= text::join(rows, seq!['\n']).len(),
    decreases rows.len(),
{
    if i < rows.len() - 1 {
        lemma_row_in_join(rows.drop_last(), i);
    }
}

/// Rows that are not too long stay whole.
proof fn lemma_short_rows_stay(rows: Seq<Seq<char>>, maximum: int)
    requires
        text::join(rows, seq!['\n']).len() <= maximum,
    ensures
        expand_rows(rows, maximum) == rows,
{
    assert forall|i: int| 0 <= i < rows.len() implies (#[trigger] rows[i]).len() <= maximum by {
        lemma_row_in_join(rows, i);
    }
    lemma_rows_within_stay(rows, maximum);
}

proof fn lemma_rows_within_stay(rows: Seq<Seq<char>>, maximum: int)
    requires
        within(rows, maximum),
    ensures
        expand_rows(rows, maximum) == rows,
    decreases rows.len(),
{
    if rows.len() > 0 {
        lemma_rows_within_stay(rows.drop_last(), maximum);
        assert(rows.last().len() <= maximum);
        assert(rows.drop_last() + seq![rows.last()] == rows);
    }
}

proof fn lemma_join_push(rows: Seq<Seq<char>>, row: Seq<char>)
    ensures
        text::join(rows.push(row), seq!['\n']) == (if rows.len() == 0 {
            row
        } else {
            text::join(rows, seq!['\n']) + seq!['\n'] + row
        }),
{
    assert(rows.push(row).drop_last() == rows);
}

/// Appends the characters of `s` to `out`.
fn push_all(out: &mut Vec<char>, s: &str)
    ensures
        final(out)@ == old(out)@ + s@,
{
    let mut chars = chars_of(s);
    out.append(&mut chars);
}

/// The text of the message `part`, ended inside a code block if `fenced`.
proof fn lemma_closed_message(part: Part, fenced: bool)
    requires
        part.body().len() > 0,
    ensures
        (Part { closed: fenced, ..part }).message() == text::join(part.body(), seq!['\n']) + (
        if fenced {
            seq!['\n'] + "```"@
        } else {
            Seq::<char>::empty()
        }),
{
    let ended = Part { closed: fenced, ..part };
    assert(ended.body() == part.body());
    if fenced {
        assert(part.body() + ended.footer() == part.body().push("```"@));
        lemma_join_push(part.body(), "```"@);
    } else {
        assert(part.body() + ended.footer() == part.body());
    }
}

/// The rows of `group` with newlines between them.
fn joined(group: &Vec<String>) -> (r: Vec<char>)
    ensures
        r@ == text::join(text::texts(group@), seq!['\n']),
{
    let ghost all = text::texts(group@);
    let mut out: Vec<char> = Vec::new();
    let mut i: usize = 0;
    while i < group.len()
        invariant
            i <= group.len(),
            all == text::texts(group@),
            out@ == text::join(all.take(i as int), seq!['\n']),
        decreases group.len() - i,
    {
        if i > 0 {
            out.push('\n');
        }
        push_all(&mut out, group[i].as_str());
        proof {
            let longer = all.take(i + 1);
            assert(longer.drop_last() == all.take(i as int));
            assert(longer.last() == all[i as int]);
            if i == 0 {
                assert(out@ == all[0]);
            }
        }
        i = i + 1;
    }
    assert(all.take(i as int) == all);
    out
}

/// Whether `group` holds an odd number of code fences.
fn turns_code(group: &Vec<String>) -> (r: bool)
    ensures
        r == inside_code(text::texts(group@)),
{
    let ghost all = text::texts(group@);
    let fence = chars_of("```");
    let mut inside = false;
    let mut i: usize = 0;
    while i < group.len()
        invariant
            i <= group.len(),
            all == text::texts(group@),
            fence@ == "```"@,
            inside == inside_code(all.take(i as int)),
        decreases group.len() - i,
    {
        if stands_at(chars_of(group[i].as_str()).as_slice(), fence.as_slice(), 0) {
            inside = !inside;
        }
        proof {
            let longer = all.take(i + 1);
            assert(longer.drop_last() == all.take(i as int));
            assert(longer.last() == all[i as int]);
        }
        i = i + 1;
    }
    assert(all.take(i as int) == all);
    inside
}

pub proof fn lemma_with_rows(part: Part, group: Seq<Seq<char>>)
    requires
        group.len() > 0,
    ensures
        part.with_rows(group).body() == part.body() + group,
        text::join(part.with_rows(group).body(), seq!['\n']) == (if part.body().len() == 0 {
            text::join(group, seq!['\n'])
        } else {
            text::join(part.body(), seq!['\n']) + seq!['\n'] + text::join(group, seq!['\n'])
        }),
{
    assert(part.with_rows(group).body() == part.body() + group);
    if part.body().len() > 0 {
        text::lemma_join_concat(part.body(), group, seq!['\n']);
    } else {
        assert(part.body() + group == group);
    }
}

/// The rows before those of the report in a message that continues one.
proof fn lemma_continued(fenced: bool)
    ensures
        ({
            let start = next_part(Seq::empty(), fenced);
            let title = "**Codex Usage Monitor (continued)**"@;
            &&& start.body().len() > 0
            &&& text::join(start.body(), seq!['\n']) == (if fenced {
                title + seq!['\n'] + "```text"@
            } else {
                title
            })
        }),
{
    let title = seq!["**Codex Usage Monitor (continued)**"@];
    let start = next_part(Seq::empty(), fenced);
    lemma_join_push(title, "```text"@);
    assert(text::join(title, seq!['\n']) == title[0]);
    assert(start.body() == (if fenced {
        title.push("```text"@)
    } else {
        title
    }));
}

/// The messages that carry a report. A report that fits in one message is one message. A larger
/// one is cut between its lines, but an account section that fits in one message stays whole; a
/// message that ends inside a code block ends that block, and the next one opens it again. No
/// line is left out.
#[verifier::rlimit(30)]
pub fn split_report(report: &str) -> (r: Vec<String>)
    ensures
        text::texts(r@) == report_messages(report@),
        forall|i: int| 0 <= i < r@.len() ==> (#[trigger] r@[i])@.len() <= DISCORD_LIMIT,
{
    if report.unicode_len() <= DISCORD_LIMIT {
        let whole = report.to_owned();
        let r = vec![whole];
        assert(text::texts(r@) == seq![report@]);
        return r;
    }
    let blocks = group_rows(report);
    let ghost all = group_texts(blocks@);
    let ghost goal = messages(report_parts(report@));
    let ghost mut part = first_part();
    let mut chunks: Vec<String> = Vec::new();
    let mut current: Vec<char> = Vec::new();
    let mut started = false;
    let mut fenced = false;
    let mut i: usize = 0;
    proof {
        lemma_groups_are_small(text::lines(report@), 0);
        assert(all.skip(0) == all);
        assert(text::texts(chunks@) + goal == goal);
        assert(part.body() == Seq::<Seq<char>>::empty());
    }
    while i < blocks.len()
        invariant
            i <= blocks.len(),
            all == group_texts(blocks@),
            all_small(all),
            started == (part.body().len() > 0),
            current@ == text::join(part.body(), seq!['\n']),
            text::texts(chunks@) + messages(fill(part, all.skip(i as int), fenced)) == goal,
        decreases blocks.len() - i,
    {
        let ghost rest = all.skip(i as int);
        let ghost group = all[i as int];
        let ghost held = text::texts(chunks@);
        let mut rows = joined(&blocks[i]);
        let behind = fenced != turns_code(&blocks[i]);
        let extra: usize = if fenced && behind {
            4
        } else {
            0
        };
        let mut separate = started;
        proof {
            assert(rest[0] == group);
            assert(rest.skip(1) == all.skip(i + 1));
            assert(is_small(group));
        }
        if started && (rows.len() > SAFE_CHUNK_LIMIT || current.len() > SAFE_CHUNK_LIMIT
            || current.len() + rows.len() + 1 + extra > SAFE_CHUNK_LIMIT) {
            assert(overflows(part, group, fenced));
            if fenced {
                current.push('\n');
                push_all(&mut current, "```");
            }
            let chunk = text_of(current.as_slice());
            chunks.push(chunk);
            separate = true;
            current = chars_of("**Codex Usage Monitor (continued)**");
            if fenced {
                current.push('\n');
                push_all(&mut current, "```text");
            }
            proof {
                let next = next_part(Seq::empty(), fenced);
                let ended = Part { closed: fenced, ..part };
                let tail = fill(next_part(group, fenced), rest.skip(1), behind);
                lemma_closed_message(part, fenced);
                assert(chunk@ == ended.message());
                assert(text::texts(chunks@) == held.push(ended.message()));
                assert(fill(part, rest, fenced) == seq![ended] + tail);
                assert(messages(seq![ended] + tail) == seq![ended.message()] + messages(tail));
                assert(held + (seq![ended.message()] + messages(tail)) == held.push(
                    ended.message(),
                ) + messages(tail));
                lemma_continued(fenced);
                assert(next.with_rows(group).rows == group);
                assert(next.with_rows(group) == next_part(group, fenced));
                part = next;
            }
        } else {
            assert(!overflows(part, group, fenced));
        }
        assert(text::texts(chunks@) + messages(fill(part.with_rows(group), rest.skip(1), behind))
            == goal);
        if separate {
            current.push('\n');
        }
        current.append(&mut rows);
        proof {
            lemma_with_rows(part, group);
            part = part.with_rows(group);
        }
        started = true;
        fenced = behind;
        i = i + 1;
    }
    if started {
        if fenced {
            current.push('\n');
            push_all(&mut current, "```");
        }
        let ghost held = text::texts(chunks@);
        let chunk = text_of(current.as_slice());
        chunks.push(chunk);
        proof {
            let ended = Part { closed: fenced, ..part };
            lemma_closed_message(part, fenced);
            assert(chunk@ == ended.message());
            assert(text::texts(chunks@) == held.push(ended.message()));
            assert(messages(seq![ended]) == seq![ended.message()]);
        }
    } else {
        assert(messages(Seq::<Part>::empty()) == Seq::<Seq<char>>::empty());
    }
    assert(text::texts(chunks@) == goal);
    proof {
        law_messages_fit(report@);
        assert forall|i: int| 0 <= i < chunks@.len() implies (#[trigger] chunks@[i])@.len()
            <= DISCORD_LIMIT by {
            assert(text::texts(chunks@)[i] == report_messages(report@)[i]);
        }
    }
    chunks
}

/// Whether none of `rows` is longer than `maximum`.
spec fn within(rows: Seq<Seq<char>>, maximum: int) -> bool {
    forall|i: int| 0 <= i < rows.len() ==> (#[trigger] rows[i]).len() <= maximum
}

proof fn lemma_expand_row_bounded(row: Seq<char>, maximum: int)
    requires
        maximum > 0,
    ensures
        within(expand_row(row, maximum), maximum),
    decreases row.len(),
{
    if row.len() > maximum {
        let tail = expand_row(row.skip(maximum), maximum);
        lemma_expand_row_bounded(row.skip(maximum), maximum);
        let all = seq![row.take(maximum)] + tail;
        assert forall|i: int| 0 <= i < all.len() implies (#[trigger] all[i]).len() <= maximum by {
            if i > 0 {
                assert(all[i] == tail[i - 1]);
            }
        }
    }
}

proof fn lemma_expand_rows_bounded(rows: Seq<Seq<char>>, maximum: int)
    requires
        maximum > 0,
    ensures
        within(expand_rows(rows, maximum), maximum),
    decreases rows.len(),
{
    if rows.len() > 0 {
        let head = expand_rows(rows.drop_last(), maximum);
        let tail = expand_row(rows.last(), maximum);
        lemma_expand_rows_bounded(rows.drop_last(), maximum);
        lemma_expand_row_bounded(rows.last(), maximum);
        let all = head + tail;
        assert forall|i: int| 0 <= i < all.len() implies (#[trigger] all[i]).len() <= maximum by {
            if i < head.len() {
                assert(all[i] == head[i]);
            } else {
                assert(all[i] == tail[i - head.len()]);
            }
        }
    }
}

/// Whether each of `parts` fits in a message.
spec fn all_fit(parts: Seq<Part>) -> bool {
    forall|i: int| 0 <= i < parts.len() ==> (#[trigger] parts[i]).message().len() <= DISCORD_LIMIT
}

/// Whether `group` holds rows, and takes no more room than the longest row.
spec fn is_small(group: Seq<Seq<char>>) -> bool {
    group.len() > 0 && text::join(group, seq!['\n']).len() <= LONGEST_LINE
}

/// Whether each of `groups` holds rows, and takes no more room than the longest row.
spec fn all_small(groups: Seq<Seq<Seq<char>>>) -> bool {
    forall|i: int| 0 <= i < groups.len() ==> is_small(#[trigger] groups[i])
}

proof fn lemma_groups_are_small(rows: Seq<Seq<char>>, start: int)
    ensures
        all_small(groups(rows, start)),
    decreases rows.len() - start,
{
    if 0 <= start < rows.len() {
        sections::lemma_section_end(rows, start);
        let end = block_end(rows, start);
        let block = rows.subrange(start, end + 1);
        let first = block_groups(rows, start, end);
        let rest = groups(rows, end + 1);
        lemma_groups_are_small(rows, end + 1);
        lemma_expand_rows_bounded(block, LONGEST_LINE as int);
        assert forall|i: int| 0 <= i < (first + rest).len() implies is_small(
            #[trigger] (first + rest)[i],
        ) by {
            if i >= first.len() {
                assert((first + rest)[i] == rest[i - first.len()]);
            } else if !(end > start && fits(block)) {
                let row = expand_rows(block, LONGEST_LINE as int)[i];
                assert(first[i] == seq![row]);
                assert(row.len() <= LONGEST_LINE);
            }
        }
    }
}

proof fn lemma_fill_bounded(current: Part, groups: Seq<Seq<Seq<char>>>, fenced: bool)
    requires
        text::join(current.body(), seq!['\n']).len() <= 1_928,
        all_small(groups),
    ensures
        all_fit(fill(current, groups, fenced)),
    decreases groups.len(),
{
    reveal_strlit("```");
    reveal_strlit("```text");
    reveal_strlit("**Codex Usage Monitor (continued)**");
    let ended = Part { closed: fenced, ..current };
    if current.body().len() > 0 {
        lemma_closed_message(current, fenced);
        assert(ended.message().len() <= DISCORD_LIMIT);
    }
    if groups.len() > 0 {
        let group = groups[0];
        let behind = fenced_behind(group, fenced);
        let rest = groups.skip(1);
        assert(is_small(group));
        assert forall|i: int| 0 <= i < rest.len() implies is_small(#[trigger] rest[i]) by {
            assert(rest[i] == groups[i + 1]);
        }
        if overflows(current, group, fenced) {
            let start = next_part(Seq::empty(), fenced);
            let next = next_part(group, fenced);
            lemma_continued(fenced);
            lemma_with_rows(start, group);
            assert(start.with_rows(group).rows == group);
            lemma_fill_bounded(next, rest, behind);
            let tail = fill(next, rest, behind);
            let all = seq![ended] + tail;
            assert forall|i: int| 0 <= i < all.len() implies (#[trigger] all[i]).message().len()
                <= DISCORD_LIMIT by {
                if i > 0 {
                    assert(all[i] == tail[i - 1]);
                }
            }
        } else {
            lemma_with_rows(current, group);
            lemma_fill_bounded(current.with_rows(group), rest, behind);
        }
    }
}

/// No message is longer than Discord allows.
pub proof fn law_messages_fit(report: Seq<char>)
    ensures
        forall|i: int| 0 <= i < report_messages(report).len() ==> (#[trigger] report_messages(
            report,
        )[i]).len() <= DISCORD_LIMIT,
{
    if report.len() > DISCORD_LIMIT {
        lemma_groups_are_small(text::lines(report), 0);
        assert(first_part().body() == Seq::<Seq<char>>::empty());
        lemma_fill_bounded(first_part(), groups(text::lines(report), 0), false);
        assert forall|i: int| 0 <= i < report_messages(report).len() implies (
        #[trigger] report_messages(report)[i]).len() <= DISCORD_LIMIT by {
            assert(report_messages(report)[i] == report_parts(report)[i].message());
        }
    }
}

/// The rows of a report that `parts` carry, one message after the other.
pub open spec fn carried_rows(parts: Seq<Part>) -> Seq<Seq<char>>
    decreases parts.len(),
{
    if parts.len() == 0 {
        Seq::empty()
    } else {
        parts[0].rows + carried_rows(parts.skip(1))
    }
}

/// The pieces of a cut row, put together again.
pub open spec fn put_together(pieces: Seq<Seq<char>>) -> Seq<char> {
    text::join(pieces, Seq::empty())
}

/// The rows of `groups`, one group after the other.
pub open spec fn flatten(groups: Seq<Seq<Seq<char>>>) -> Seq<Seq<char>>
    decreases groups.len(),
{
    if groups.len() == 0 {
        Seq::empty()
    } else {
        groups[0] + flatten(groups.skip(1))
    }
}

proof fn lemma_flatten_concat(a: Seq<Seq<Seq<char>>>, b: Seq<Seq<Seq<char>>>)
    ensures
        flatten(a + b) == flatten(a) + flatten(b),
    decreases a.len(),
{
    if a.len() == 0 {
        assert(a + b == b);
    } else {
        lemma_flatten_concat(a.skip(1), b);
        assert((a + b).skip(1) == a.skip(1) + b);
        assert(flatten(a + b) == flatten(a) + flatten(b));
    }
}

proof fn lemma_flatten_singles(rows: Seq<Seq<char>>)
    ensures
        flatten(singles(rows)) == rows,
    decreases rows.len(),
{
    if rows.len() > 0 {
        lemma_flatten_singles(rows.skip(1));
        assert(singles(rows).skip(1) == singles(rows.skip(1)));
        assert(seq![rows[0]] + rows.skip(1) == rows);
    }
}

proof fn lemma_expand_concat(a: Seq<Seq<char>>, b: Seq<Seq<char>>, maximum: int)
    ensures
        expand_rows(a + b, maximum) == expand_rows(a, maximum) + expand_rows(b, maximum),
    decreases b.len(),
{
    if b.len() == 0 {
        assert(a + b == a);
    } else {
        lemma_expand_concat(a, b.drop_last(), maximum);
        assert((a + b).drop_last() == a + b.drop_last());
        assert(expand_rows(a + b, maximum) == expand_rows(a, maximum) + expand_rows(b, maximum));
    }
}

proof fn lemma_groups_hold_all(rows: Seq<Seq<char>>, start: int)
    requires
        0 <= start <= rows.len(),
    ensures
        flatten(groups(rows, start)) == expand_rows(rows.skip(start), LONGEST_LINE as int),
    decreases rows.len() - start,
{
    if start < rows.len() {
        sections::lemma_section_end(rows, start);
        let end = block_end(rows, start);
        let block = rows.subrange(start, end + 1);
        lemma_groups_hold_all(rows, end + 1);
        lemma_flatten_concat(block_groups(rows, start, end), groups(rows, end + 1));
        assert(rows.skip(start) == block + rows.skip(end + 1));
        lemma_expand_concat(block, rows.skip(end + 1), LONGEST_LINE as int);
        if end > start && fits(block) {
            lemma_short_rows_stay(block, LONGEST_LINE as int);
            assert(seq![block].skip(1) == Seq::<Seq<Seq<char>>>::empty());
            assert(flatten(seq![block].skip(1)) == Seq::<Seq<char>>::empty());
            assert(flatten(seq![block]) == block);
        } else {
            lemma_flatten_singles(expand_rows(block, LONGEST_LINE as int));
        }
    } else {
        assert(rows.skip(start) == Seq::<Seq<char>>::empty());
    }
}

proof fn lemma_fill_carries(current: Part, groups: Seq<Seq<Seq<char>>>, fenced: bool)
    ensures
        carried_rows(fill(current, groups, fenced)) == current.rows + flatten(groups),
    decreases groups.len(),
{
    if groups.len() == 0 {
        let ended = Part { closed: fenced, ..current };
        if current.body().len() > 0 {
            assert(seq![ended].skip(1) == Seq::<Part>::empty());
            assert(carried_rows(seq![ended].skip(1)) == Seq::<Seq<char>>::empty());
        }
    } else {
        let group = groups[0];
        let behind = fenced_behind(group, fenced);
        if overflows(current, group, fenced) {
            let ended = Part { closed: fenced, ..current };
            let tail = fill(next_part(group, fenced), groups.skip(1), behind);
            lemma_fill_carries(next_part(group, fenced), groups.skip(1), behind);
            assert((seq![ended] + tail).skip(1) == tail);
        } else {
            lemma_fill_carries(current.with_rows(group), groups.skip(1), behind);
            assert(current.rows + group + flatten(groups.skip(1)) == current.rows + flatten(
                groups,
            ));
        }
    }
}

/// A row that was cut is whole again when its pieces are put together.
pub proof fn law_pieces_make_the_row(row: Seq<char>, maximum: int)
    ensures
        put_together(expand_row(row, maximum)) == row,
    decreases row.len(),
{
    if row.len() > maximum && maximum > 0 {
        let rest = row.skip(maximum);
        let tail = expand_row(rest, maximum);
        law_pieces_make_the_row(rest, maximum);
        assert(tail.len() > 0);
        let pieces = seq![row.take(maximum)] + tail;
        assert(pieces.skip(1) == tail);
        text::lemma_join_front(pieces, Seq::empty());
        assert(row.take(maximum) + Seq::<char>::empty() + rest == row);
    }
}

/// The messages of an oversized report carry all its lines, in order, those that are too long
/// for one message in pieces.
pub proof fn law_no_line_is_discarded(report: Seq<char>)
    ensures
        carried_rows(report_parts(report)) == expand_rows(
            text::lines(report),
            LONGEST_LINE as int,
        ),
{
    let rows = text::lines(report);
    lemma_fill_carries(first_part(), groups(rows, 0), false);
    lemma_groups_hold_all(rows, 0);
    assert(rows.skip(0) == rows);
    assert(first_part().rows + flatten(groups(rows, 0)) == flatten(groups(rows, 0)));
}

proof fn lemma_inside_push(rows: Seq<Seq<char>>, row: Seq<char>)
    ensures
        inside_code(rows.push(row)) == (inside_code(rows) != is_fence(row)),
{
    assert(rows.push(row).drop_last() == rows);
}

/// Whether none of `parts` ends inside a code block.
spec fn all_close(parts: Seq<Part>) -> bool {
    forall|i: int|
        0 <= i < parts.len() ==> !inside_code((#[trigger] parts[i]).body() + parts[i].footer())
}

proof fn lemma_inside_concat(a: Seq<Seq<char>>, b: Seq<Seq<char>>)
    ensures
        inside_code(a + b) == (inside_code(a) != inside_code(b)),
    decreases b.len(),
{
    if b.len() == 0 {
        assert(a + b == a);
    } else {
        lemma_inside_concat(a, b.drop_last());
        assert((a + b).drop_last() == a + b.drop_last());
    }
}

proof fn lemma_fill_closes_code(current: Part, groups: Seq<Seq<Seq<char>>>, fenced: bool)
    requires
        fenced == inside_code(current.body()),
    ensures
        all_close(fill(current, groups, fenced)),
    decreases groups.len(),
{
    reveal_strlit("```");
    reveal_strlit("```text");
    reveal_strlit("**Codex Usage Monitor (continued)**");
    let ended = Part { closed: fenced, ..current };
    assert("```"@.subrange(0, 3) == "```"@);
    assert(is_fence("```"@));
    assert(ended.body() == current.body());
    if fenced {
        assert(ended.body() + ended.footer() == current.body().push("```"@));
        lemma_inside_push(current.body(), "```"@);
    } else {
        assert(ended.body() + ended.footer() == current.body());
    }
    if groups.len() > 0 {
        let group = groups[0];
        let rest = groups.skip(1);
        let behind = fenced_behind(group, fenced);
        if overflows(current, group, fenced) {
            let next = next_part(group, fenced);
            let name = "**Codex Usage Monitor (continued)**"@;
            let title = seq![name];
            assert("```text"@.subrange(0, 3) == "```"@);
            assert(name.subrange(0, 3)[0] != "```"@[0]);
            assert(Seq::<Seq<char>>::empty().push(name) == title);
            lemma_inside_push(Seq::empty(), name);
            lemma_inside_push(title, "```text"@);
            assert(next.header() == (if fenced {
                title.push("```text"@)
            } else {
                title
            }));
            lemma_inside_concat(next.header(), group);
            lemma_fill_closes_code(next, rest, behind);
            let tail = fill(next, rest, behind);
            let all = seq![ended] + tail;
            assert forall|i: int| 0 <= i < all.len() implies !inside_code(
                (#[trigger] all[i]).body() + all[i].footer(),
            ) by {
                if i > 0 {
                    assert(all[i] == tail[i - 1]);
                }
            }
        } else {
            lemma_inside_concat(current.body(), group);
            assert(current.with_rows(group).body() == current.body() + group);
            lemma_fill_closes_code(current.with_rows(group), rest, behind);
        }
    }
}

/// No message of an oversized report ends inside a code block.
pub proof fn law_messages_close_their_code(report: Seq<char>)
    ensures
        forall|i: int|
            0 <= i < report_parts(report).len() ==> !inside_code(
                (#[trigger] report_parts(report)[i]).body() + report_parts(report)[i].footer(),
            ),
{
    assert(first_part().body() == Seq::<Seq<char>>::empty());
    lemma_fill_closes_code(first_part(), groups(text::lines(report), 0), false);
}

proof fn lemma_contains_around(before: Seq<char>, s: Seq<char>, behind: Seq<char>, pattern: Seq<char>)
    requires
        text::contains(s, pattern),
    ensures
        text::contains(before + s + behind, pattern),
{
    let i = choose|i: int| text::occurs_at(s, pattern, i);
    let whole = before + s + behind;
    let at = before.len() + i;
    assert(whole.subrange(at, at + pattern.len()) == s.subrange(i, i + pattern.len()));
    assert(text::occurs_at(whole, pattern, at));
}

proof fn lemma_contains_itself(s: Seq<char>)
    ensures
        text::contains(s, s),
{
    assert(s.subrange(0, s.len() as int) == s);
    assert(text::occurs_at(s, s, 0));
}

proof fn lemma_join_contains(parts: Seq<Seq<char>>, separator: Seq<char>, i: int)
    requires
        0 <= i < parts.len(),
    ensures
        text::contains(text::join(parts, separator), parts[i]),
    decreases parts.len(),
{
    lemma_contains_itself(parts[i]);
    if parts.len() > 1 {
        let head = text::join(parts.drop_last(), separator);
        if i == parts.len() - 1 {
            lemma_contains_around(head + separator, parts[i], Seq::empty(), parts[i]);
            assert(head + separator + parts[i] + Seq::<char>::empty() == head + separator
                + parts[i]);
        } else {
            lemma_join_contains(parts.drop_last(), separator, i);
            lemma_contains_around(Seq::empty(), head, separator + parts.last(), parts[i]);
            assert(Seq::<char>::empty() + head + (separator + parts.last()) == head + separator
                + parts.last());
        }
    }
}

proof fn lemma_line_in_text(s: Seq<char>, i: int)
    requires
        0 <= i < text::lines(s).len(),
    ensures
        text::contains(s, text::lines(s)[i]),
    decreases s.len(),
{
    let n = text::first_index(s, '\n') as int;
    text::lemma_first_index(s, '\n');
    if n >= s.len() {
        lemma_contains_itself(s);
    } else {
        let whole = s.take(n);
        let line = text::strip_return(whole);
        let rest = s.skip(n + 1);
        let all = text::lines(s);
        let tail = text::lines(rest);
        assert(all == seq![line] + tail);
        if i == 0 {
            let m = line.len() as int;
            assert(line == s.take(m));
            assert(Seq::<char>::empty() + s.take(m) + s.skip(m) == s);
            lemma_contains_itself(line);
            lemma_contains_around(Seq::empty(), line, s.skip(m), line);
        } else {
            assert(all[i] == tail[i - 1]);
            assert(s.take(n + 1) + rest + Seq::<char>::empty() == s);
            lemma_line_in_text(rest, i - 1);
            lemma_contains_around(s.take(n + 1), rest, Seq::empty(), all[i]);
        }
    }
}

proof fn lemma_short_row_stays(rows: Seq<Seq<char>>, maximum: int, i: int) -> (at: int)
    requires
        0 <= i < rows.len(),
        rows[i].len() <= maximum,
    ensures
        0 <= at < expand_rows(rows, maximum).len(),
        expand_rows(rows, maximum)[at] == rows[i],
    decreases rows.len(),
{
    let head = expand_rows(rows.drop_last(), maximum);
    if i == rows.len() - 1 {
        assert(expand_row(rows.last(), maximum)[0] == rows[i]);
        head.len() as int
    } else {
        lemma_short_row_stays(rows.drop_last(), maximum, i)
    }
}

proof fn lemma_carried_by(parts: Seq<Part>, at: int) -> (place: (int, int))
    requires
        0 <= at < carried_rows(parts).len(),
    ensures
        0 <= place.0 < parts.len(),
        0 <= place.1 < parts[place.0].rows.len(),
        parts[place.0].rows[place.1] == carried_rows(parts)[at],
    decreases parts.len(),
{
    let first = parts[0].rows;
    if at < first.len() {
        (0, at)
    } else {
        let place = lemma_carried_by(parts.skip(1), at - first.len());
        assert(parts.skip(1)[place.0] == parts[place.0 + 1]);
        (place.0 + 1, place.1)
    }
}

/// Every line of a report that is not too long for one message stands whole in one of the
/// messages.
pub proof fn law_every_line_reaches_a_message(report: Seq<char>, i: int)
    requires
        0 <= i < text::lines(report).len(),
        text::lines(report)[i].len() <= LONGEST_LINE,
    ensures
        exists|k: int|
            0 <= k < report_messages(report).len() && text::contains(
                #[trigger] report_messages(report)[k],
                text::lines(report)[i],
            ),
{
    let line = text::lines(report)[i];
    if report.len() <= DISCORD_LIMIT {
        lemma_line_in_text(report, i);
        assert(text::contains(report_messages(report)[0], line));
    } else {
        let parts = report_parts(report);
        law_no_line_is_discarded(report);
        let at = lemma_short_row_stays(text::lines(report), LONGEST_LINE as int, i);
        let (k, j) = lemma_carried_by(parts, at);
        let part = parts[k];
        let rows = part.body() + part.footer();
        assert(rows[part.header().len() + j] == line);
        lemma_join_contains(rows, seq!['\n'], part.header().len() + j);
        assert(report_messages(report)[k] == part.message());
    }
}

/// Whether the row `row` is the first of a block when the rows from `start` on are read block by
/// block, each a section or a single row.
pub open spec fn starts_block(rows: Seq<Seq<char>>, start: int, row: int) -> bool
    decreases rows.len() - start,
{
    if start == row {
        true
    } else if start < 0 || start > row || start >= rows.len() {
        false
    } else {
        proof {
            sections::lemma_section_end(rows, start);
        }
        starts_block(rows, block_end(rows, start) + 1, row)
    }
}

proof fn lemma_section_is_a_group(rows: Seq<Seq<char>>, start: int, row: int) -> (g: int)
    requires
        starts_block(rows, start, row),
        0 <= start,
        row < rows.len(),
        sections::section_end(rows, row) is Some,
        fits(rows.subrange(row, block_end(rows, row) + 1)),
    ensures
        0 <= g < groups(rows, start).len(),
        groups(rows, start)[g] == rows.subrange(row, block_end(rows, row) + 1),
    decreases rows.len() - start,
{
    sections::lemma_section_end(rows, start);
    let end = block_end(rows, start);
    let first = block_groups(rows, start, end);
    if start == row {
        assert(first[0] == rows.subrange(row, end + 1));
        0
    } else {
        let g = lemma_section_is_a_group(rows, end + 1, row);
        first.len() + g
    }
}

/// The first message keeps the rows that it has.
pub proof fn lemma_fill_extends(current: Part, groups: Seq<Seq<Seq<char>>>, fenced: bool)
    requires
        current.body().len() > 0,
    ensures
        fill(current, groups, fenced).len() > 0,
        current.rows.len() <= fill(current, groups, fenced)[0].rows.len(),
        fill(current, groups, fenced)[0].rows.take(current.rows.len() as int) == current.rows,
    decreases groups.len(),
{
    if groups.len() > 0 && !overflows(current, groups[0], fenced) {
        let longer = current.with_rows(groups[0]);
        lemma_fill_extends(longer, groups.skip(1), fenced_behind(groups[0], fenced));
        let all = fill(current, groups, fenced)[0].rows;
        assert(all.take(current.rows.len() as int) == all.take(longer.rows.len() as int).take(
            current.rows.len() as int,
        ));
    }
}

/// A group stands in one message, without a break.
proof fn lemma_group_stays(
    current: Part,
    groups: Seq<Seq<Seq<char>>>,
    fenced: bool,
    g: int,
) -> (place: (int, int))
    requires
        0 <= g < groups.len(),
        groups[g].len() > 0,
    ensures
        ({
            let parts = fill(current, groups, fenced);
            let (k, j) = place;
            &&& 0 <= k < parts.len()
            &&& 0 <= j
            &&& j + groups[g].len() <= parts[k].rows.len()
            &&& parts[k].rows.subrange(j, j + groups[g].len()) == groups[g]
        }),
    decreases groups.len(),
{
    let group = groups[0];
    let rest = groups.skip(1);
    let behind = fenced_behind(group, fenced);
    let parts = fill(current, groups, fenced);
    if overflows(current, group, fenced) {
        let next = next_part(group, fenced);
        let tail = fill(next, rest, behind);
        assert(parts == seq![Part { closed: fenced, ..current }] + tail);
        if g == 0 {
            assert(next.body().len() > 0);
            lemma_fill_extends(next, rest, behind);
            assert(parts[1] == tail[0]);
            assert(parts[1].rows.subrange(0, group.len() as int) == group);
            (1, 0)
        } else {
            let (k, j) = lemma_group_stays(next, rest, behind, g - 1);
            assert(parts[k + 1] == tail[k]);
            (k + 1, j)
        }
    } else {
        let longer = current.with_rows(group);
        if g == 0 {
            let j = current.rows.len() as int;
            assert(longer.body().len() > 0);
            lemma_fill_extends(longer, rest, behind);
            assert(parts[0].rows.subrange(j, j + group.len()) == parts[0].rows.take(
                longer.rows.len() as int,
            ).subrange(j, j + group.len()));
            assert(longer.rows.subrange(j, j + group.len()) == group);
            (0, j)
        } else {
            lemma_group_stays(longer, rest, behind, g - 1)
        }
    }
}

proof fn lemma_join_contains_range(rows: Seq<Seq<char>>, separator: Seq<char>, from: int, to: int)
    requires
        0 <= from < to <= rows.len(),
    ensures
        text::contains(
            text::join(rows, separator),
            text::join(rows.subrange(from, to), separator),
        ),
{
    let middle = rows.subrange(from, to);
    let whole = text::join(middle, separator);
    lemma_contains_itself(whole);
    let upto = rows.take(to);
    if from > 0 {
        assert(upto == rows.take(from) + middle);
        text::lemma_join_concat(rows.take(from), middle, separator);
        lemma_contains_around(
            text::join(rows.take(from), separator) + separator,
            whole,
            Seq::empty(),
            whole,
        );
        assert(text::join(rows.take(from), separator) + separator + whole + Seq::<char>::empty()
            == text::join(upto, separator));
    } else {
        assert(upto == middle);
    }
    if to < rows.len() {
        assert(rows == upto + rows.skip(to));
        text::lemma_join_concat(upto, rows.skip(to), separator);
        let behind = separator + text::join(rows.skip(to), separator);
        lemma_contains_around(Seq::empty(), text::join(upto, separator), behind, whole);
        assert(Seq::<char>::empty() + text::join(upto, separator) + behind == text::join(
            rows,
            separator,
        ));
    } else {
        assert(upto == rows);
    }
}

/// A section that fits in one message stands whole in one of the messages of an oversized report.
pub proof fn law_sections_that_fit_stay_whole(report: Seq<char>, start: int, end: int)
    requires
        report.len() > DISCORD_LIMIT,
        starts_block(text::lines(report), 0, start),
        sections::section_end(text::lines(report), start) == Some(end),
        fits(text::lines(report).subrange(start, end + 1)),
    ensures
        exists|k: int|
            0 <= k < report_messages(report).len() && text::contains(
                #[trigger] report_messages(report)[k],
                text::join(text::lines(report).subrange(start, end + 1), seq!['\n']),
            ),
{
    let rows = text::lines(report);
    sections::lemma_section_end(rows, start);
    let section = rows.subrange(start, end + 1);
    let parts = report_parts(report);
    let g = lemma_section_is_a_group(rows, 0, start);
    let (k, j) = lemma_group_stays(first_part(), groups(rows, 0), false, g);
    let part = parts[k];
    let all = part.body() + part.footer();
    let from = part.header().len() + j;
    assert(all.subrange(from, from + section.len()) == part.rows.subrange(j, j + section.len()));
    lemma_join_contains_range(all, seq!['\n'], from, from + section.len());
    assert(report_messages(report)[k] == part.message());
}

} // verus!
