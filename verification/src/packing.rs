//! How the rows of an oversized report are packed into messages.

use vstd::prelude::*;

use crate::sections;
use crate::split;
use crate::split::{expand_long_lines, split_report, Part};
use crate::text;

verus! {

/// The number of `rows` that start with three backticks.
pub open spec fn fences(rows: Seq<Seq<char>>) -> nat
    decreases rows.len(),
{
    if rows.len() == 0 {
        0
    } else {
        let last = rows.last();
        fences(rows.drop_last()) + if last.len() >= 3 && last[0] == '`' && last[1] == '`' && last[2]
            == '`' {
            1nat
        } else {
            0nat
        }
    }
}

/// Whether what follows `rows` stands inside a code block: each row that starts with three backticks
/// opens one or closes it.
pub open spec fn opens_code(rows: Seq<Seq<char>>) -> bool {
    fences(rows) % 2 == 1
}

/// The rows of a message that carries `rows`, which follow the rows `before` in the report, but for
/// the row that ends a code block. A message that is not the first has a title, and opens the code
/// block again that it starts in.
pub open spec fn message_rows(
    rows: Seq<Seq<char>>,
    before: Seq<Seq<char>>,
    first: bool,
) -> Seq<Seq<char>> {
    if first {
        rows
    } else if opens_code(before) {
        seq!["**Codex Usage Monitor (continued)**"@, "```text"@] + rows
    } else {
        seq!["**Codex Usage Monitor (continued)**"@] + rows
    }
}

/// Whether `message` carries `rows`, which follow the rows `before` in the report. A message that
/// would end inside a code block ends that block.
pub open spec fn carries(
    message: Seq<char>,
    rows: Seq<Seq<char>>,
    before: Seq<Seq<char>>,
    first: bool,
) -> bool {
    let shown = message_rows(rows, before, first);
    message == text::join(
        if opens_code(before + rows) {
            shown.push("```"@)
        } else {
            shown
        },
        seq!['\n'],
    )
}

/// Whether the first `n` of `rows` belong together: a single row, or a section that fits in a message
/// behind its title.
pub open spec fn belong_together(lines: Seq<Seq<char>>, rows: Seq<Seq<char>>, n: int) -> bool {
    &&& 1 <= n <= rows.len()
    &&& n == 1 || (text::join(rows.take(n), seq!['\n']).len() + 36 <= 1_900 && exists|start: int|
        #[trigger] sections::section_end(lines, start) == Some(start + n - 1) && 0 <= start
            && lines.subrange(start, start + n) == rows.take(n))
}

/// Whether a message that shows the rows `shown`, the last of which is the last of `before`, has no
/// room for the first `n` of the rows `rows` that follow them.
pub open spec fn has_no_room(
    shown: Seq<Seq<char>>,
    before: Seq<Seq<char>>,
    rows: Seq<Seq<char>>,
    n: int,
) -> bool {
    text::join(shown, seq!['\n']).len() + 1 + text::join(rows.take(n), seq!['\n']).len() + (
    if opens_code(before) && opens_code(before + rows.take(n)) {
        4int
    } else {
        0int
    }) > 1_900
}

/// Whether the rows `rows` start a new message because the one that shows `shown` has no room for
/// those of them that belong together.
pub open spec fn starts_anew(
    lines: Seq<Seq<char>>,
    shown: Seq<Seq<char>>,
    before: Seq<Seq<char>>,
    rows: Seq<Seq<char>>,
) -> bool {
    exists|n: int| #[trigger]
        belong_together(lines, rows, n) && has_no_room(shown, before, rows, n)
}

/// Whether a message that shows `shown` is not overfull: it takes up to 1900 characters, or carries
/// nothing but rows that belong together.
pub open spec fn is_not_overfull(
    lines: Seq<Seq<char>>,
    shown: Seq<Seq<char>>,
    rows: Seq<Seq<char>>,
) -> bool {
    text::join(shown, seq!['\n']).len() <= 1_900 || belong_together(lines, rows, rows.len() as int)
}

proof fn lemma_fences(rows: Seq<Seq<char>>)
    ensures
        split::inside_code(rows) == opens_code(rows),
    decreases rows.len(),
{
    if rows.len() > 0 {
        lemma_fences(rows.drop_last());
        reveal_strlit("```");
        let last = rows.last();
        let fence = "```"@;
        if last.len() >= 3 && last[0] == '`' && last[1] == '`' && last[2] == '`' {
            assert(last.subrange(0, 3) =~= fence);
        } else if split::is_fence(last) {
            assert(last.subrange(0, 3) == fence);
            assert(last.subrange(0, 3)[0] == last[0]);
            assert(last.subrange(0, 3)[1] == last[1]);
            assert(last.subrange(0, 3)[2] == last[2]);
        }
    }
}

proof fn lemma_fences_concat(a: Seq<Seq<char>>, b: Seq<Seq<char>>)
    ensures
        fences(a + b) == fences(a) + fences(b),
    decreases b.len(),
{
    if b.len() == 0 {
        assert(a + b =~= a);
    } else {
        lemma_fences_concat(a, b.drop_last());
        assert((a + b).drop_last() =~= a + b.drop_last());
    }
}

/// The rows that each of `parts` carries.
spec fn rows_of(parts: Seq<Part>) -> Seq<Seq<Seq<char>>> {
    Seq::new(parts.len(), |i: int| parts[i].rows)
}

/// The rows that the first `k` of `parts` carry.
spec fn rows_ahead(parts: Seq<Part>, k: int) -> Seq<Seq<char>> {
    split::flatten(rows_of(parts).take(k))
}

proof fn lemma_rows_ahead(first: Part, tail: Seq<Part>, k: int)
    requires
        0 <= k <= tail.len(),
    ensures
        rows_ahead(seq![first] + tail, k + 1) == first.rows + rows_ahead(tail, k),
{
    let all = rows_of(seq![first] + tail).take(k + 1);
    assert(all[0] == first.rows);
    assert(all.skip(1) =~= rows_of(tail).take(k));
}

/// Whether each of `groups` holds rows that belong together.
spec fn all_belong(lines: Seq<Seq<char>>, groups: Seq<Seq<Seq<char>>>) -> bool {
    forall|g: int|
        0 <= g < groups.len() ==> belongs(lines, #[trigger] groups[g])
}

spec fn belongs(lines: Seq<Seq<char>>, group: Seq<Seq<char>>) -> bool {
    belong_together(lines, group, group.len() as int)
}

proof fn lemma_groups_belong(lines: Seq<Seq<char>>, start: int)
    ensures
        all_belong(lines, split::groups(lines, start)),
    decreases lines.len() - start,
{
    if 0 <= start < lines.len() {
        sections::lemma_section_end(lines, start);
        let end = split::block_end(lines, start);
        let block = lines.subrange(start, end + 1);
        let first = split::block_groups(lines, start, end);
        let rest = split::groups(lines, end + 1);
        lemma_groups_belong(lines, end + 1);
        assert forall|g: int| 0 <= g < (first + rest).len() implies belongs(
            lines,
            #[trigger] (first + rest)[g],
        ) by {
            if g >= first.len() {
                assert((first + rest)[g] == rest[g - first.len()]);
            } else if end > start && split::fits(block) {
                assert(first[g] == block);
                assert(block.take(block.len() as int) =~= block);
                assert(sections::section_end(lines, start) == Some(start + block.len() - 1));
                assert(lines.subrange(start, start + block.len()) == block);
            }
        }
    }
}

/// Whether the part at `k` of `parts` has the header and the footer that it needs, and ends where it
/// has to, where the rows `before` come before all parts.
spec fn is_packed(
    lines: Seq<Seq<char>>,
    before: Seq<Seq<char>>,
    parts: Seq<Part>,
    k: int,
) -> bool {
    let ahead = before + rows_ahead(parts, k);
    let part = parts[k];
    &&& part.closed == opens_code(ahead + part.rows)
    &&& is_not_overfull(lines, part.body(), part.rows)
    &&& k > 0 ==> {
        &&& part.continued
        &&& part.reopened == opens_code(ahead)
        &&& starts_anew(lines, parts[k - 1].body(), ahead, part.rows)
    }
}

proof fn lemma_first_is_packed(
    lines: Seq<Seq<char>>,
    before: Seq<Seq<char>>,
    ended: Part,
    tail: Seq<Part>,
)
    requires
        ended.closed == opens_code(before + ended.rows),
        is_not_overfull(lines, ended.body(), ended.rows),
    ensures
        is_packed(lines, before, seq![ended] + tail, 0),
{
    let parts = seq![ended] + tail;
    assert(rows_of(parts).take(0) =~= Seq::empty());
    assert(before + rows_ahead(parts, 0) =~= before);
}

proof fn lemma_second_is_packed(
    lines: Seq<Seq<char>>,
    before: Seq<Seq<char>>,
    ended: Part,
    tail: Seq<Part>,
    group: Seq<Seq<char>>,
)
    requires
        tail.len() > 0,
        is_packed(lines, before + ended.rows, tail, 0),
        tail[0].continued,
        tail[0].reopened == opens_code(before + ended.rows),
        belongs(lines, group),
        group.len() <= tail[0].rows.len(),
        tail[0].rows.take(group.len() as int) == group,
        has_no_room(ended.body(), before + ended.rows, group, group.len() as int),
    ensures
        is_packed(lines, before, seq![ended] + tail, 1),
{
    let parts = seq![ended] + tail;
    let ahead = before + ended.rows;
    lemma_rows_ahead(ended, tail, 0);
    assert(rows_of(tail).take(0) =~= Seq::empty());
    assert(rows_ahead(tail, 0) =~= Seq::empty());
    assert(ahead + rows_ahead(tail, 0) =~= ahead);
    assert(before + rows_ahead(parts, 1) =~= ahead);
    let rows = tail[0].rows;
    let n = group.len() as int;
    assert(group.take(n) =~= group);
    assert(belong_together(lines, rows, n));
    assert(has_no_room(ended.body(), ahead, rows, n));
    assert(starts_anew(lines, parts[0].body(), ahead, rows));
}

proof fn lemma_later_is_packed(
    lines: Seq<Seq<char>>,
    before: Seq<Seq<char>>,
    ended: Part,
    tail: Seq<Part>,
    k: int,
)
    requires
        0 < k < tail.len(),
        is_packed(lines, before + ended.rows, tail, k),
    ensures
        is_packed(lines, before, seq![ended] + tail, k + 1),
{
    let parts = seq![ended] + tail;
    lemma_rows_ahead(ended, tail, k);
    assert(before + rows_ahead(parts, k + 1) =~= before + ended.rows + rows_ahead(tail, k));
    assert(parts[k + 1] == tail[k]);
    assert(parts[k] == tail[k - 1]);
}

/// Whether all of `parts` are packed.
spec fn all_packed(lines: Seq<Seq<char>>, before: Seq<Seq<char>>, parts: Seq<Part>) -> bool {
    forall|k: int| 0 <= k < parts.len() ==> #[trigger] is_packed(lines, before, parts, k)
}

proof fn lemma_tail_is_packed(
    lines: Seq<Seq<char>>,
    before: Seq<Seq<char>>,
    ended: Part,
    tail: Seq<Part>,
    group: Seq<Seq<char>>,
)
    requires
        ended.closed == opens_code(before + ended.rows),
        is_not_overfull(lines, ended.body(), ended.rows),
        tail.len() > 0,
        all_packed(lines, before + ended.rows, tail),
        tail[0].continued,
        tail[0].reopened == opens_code(before + ended.rows),
        belongs(lines, group),
        group.len() <= tail[0].rows.len(),
        tail[0].rows.take(group.len() as int) == group,
        has_no_room(ended.body(), before + ended.rows, group, group.len() as int),
    ensures
        all_packed(lines, before, seq![ended] + tail),
{
    let parts = seq![ended] + tail;
    assert forall|k: int| 0 <= k < parts.len() implies #[trigger] is_packed(
        lines,
        before,
        parts,
        k,
    ) by {
        if k == 0 {
            lemma_first_is_packed(lines, before, ended, tail);
        } else {
            assert(is_packed(lines, before + ended.rows, tail, k - 1));
            if k == 1 {
                lemma_second_is_packed(lines, before, ended, tail, group);
            } else {
                lemma_later_is_packed(lines, before, ended, tail, k - 1);
            }
        }
    }
}

/// What a group does to a message that it fits in.
proof fn lemma_group_is_packed(
    lines: Seq<Seq<char>>,
    before: Seq<Seq<char>>,
    current: Part,
    group: Seq<Seq<char>>,
    fenced: bool,
)
    requires
        fenced == opens_code(before + current.rows),
        belongs(lines, group),
        current.body().len() == 0 ==> !current.continued && current.rows.len() == 0,
    ensures
        split::fenced_behind(group, fenced) == opens_code(before + current.with_rows(group).rows),
        split::fenced_behind(group, fenced) == opens_code(before + current.rows + group),
        !split::overflows(current, group, fenced) ==> is_not_overfull(
            lines,
            current.with_rows(group).body(),
            current.with_rows(group).rows,
        ),
        split::overflows(current, group, fenced) ==> has_no_room(
            current.body(),
            before + current.rows,
            group,
            group.len() as int,
        ),
{
    let longer = current.with_rows(group);
    lemma_fences(group);
    lemma_fences_concat(before + current.rows, group);
    assert(before + longer.rows =~= before + current.rows + group);
    split::lemma_with_rows(current, group);
    assert(group.take(group.len() as int) =~= group);
    if current.body().len() == 0 {
        assert(longer.rows =~= group);
    }
}

proof fn lemma_fill_packs(
    lines: Seq<Seq<char>>,
    before: Seq<Seq<char>>,
    current: Part,
    groups: Seq<Seq<Seq<char>>>,
    fenced: bool,
)
    requires
        fenced == opens_code(before + current.rows),
        all_belong(lines, groups),
        current.body().len() > 0 ==> is_not_overfull(lines, current.body(), current.rows),
        current.body().len() == 0 ==> !current.continued && current.rows.len() == 0,
    ensures
        ({
            let parts = split::fill(current, groups, fenced);
            &&& parts.len() > 0 ==> parts[0].continued == current.continued && parts[0].reopened
                == current.reopened
            &&& all_packed(lines, before, parts)
        }),
    decreases groups.len(),
{
    let parts = split::fill(current, groups, fenced);
    let ended = Part { closed: fenced, ..current };
    assert(ended.body() == current.body());
    if groups.len() == 0 {
        if current.body().len() > 0 {
            lemma_first_is_packed(lines, before, ended, Seq::empty());
            assert(parts =~= seq![ended] + Seq::empty());
        }
    } else {
        let group = groups[0];
        let rest = groups.skip(1);
        let behind = split::fenced_behind(group, fenced);
        assert(belongs(lines, group));
        assert forall|g: int| 0 <= g < rest.len() implies belongs(lines, #[trigger] rest[g]) by {
            assert(rest[g] == groups[g + 1]);
        }
        lemma_group_is_packed(lines, before, current, group, fenced);
        if split::overflows(current, group, fenced) {
            let next = split::next_part(group, fenced);
            let tail = split::fill(next, rest, behind);
            assert(next.body().len() > 0);
            lemma_fill_packs(lines, before + current.rows, next, rest, behind);
            split::lemma_fill_extends(next, rest, behind);
            assert(parts == seq![ended] + tail);
            lemma_tail_is_packed(lines, before, ended, tail, group);
        } else {
            let longer = current.with_rows(group);
            assert(longer.body().len() > 0) by {
                split::lemma_with_rows(current, group);
            }
            lemma_fill_packs(lines, before, longer, rest, behind);
        }
    }
}

/// The messages of an oversized report carry its lines one after the other, the first message as they
/// are and each other one under a title. Lines of more than 1884 characters are carried in pieces. A
/// code block that goes on from one message to the next is ended in the one and opened again in the
/// other.
pub proof fn law_messages_carry_the_lines(report: &str, messages: Vec<String>) -> (rows: Seq<
    Seq<Seq<char>>,
>)
    requires
        call_ensures(split_report, (report,), messages),
        report@.len() > 2_000,
    ensures
        rows.len() == messages@.len(),
        split::flatten(rows) == split::expand_rows(text::lines(report@), 1_884),
        forall|k: int|
            0 <= k < messages@.len() ==> carries(
                (#[trigger] messages@[k])@,
                rows[k],
                split::flatten(rows.take(k)),
                k == 0,
            ),
        forall|k: int|
            0 < k < messages@.len() ==> starts_anew(
                text::lines(report@),
                message_rows(rows[k - 1], split::flatten(rows.take(k - 1)), k == 1),
                split::flatten(rows.take(k)),
                #[trigger] rows[k],
            ),
        forall|k: int|
            0 <= k < messages@.len() ==> is_not_overfull(
                text::lines(report@),
                message_rows(rows[k], split::flatten(rows.take(k)), k == 0),
                #[trigger] rows[k],
            ),
{
    let lines = text::lines(report@);
    let groups = split::groups(lines, 0);
    let parts = split::report_parts(report@);
    let none = Seq::<Seq<char>>::empty();
    let rows = rows_of(parts);
    assert(text::texts(messages@) == split::messages(parts));
    split::law_no_line_is_discarded(report@);
    lemma_carried_rows(parts);
    lemma_groups_belong(lines, 0);
    assert(split::first_part().body() =~= none);
    assert(none + split::first_part().rows =~= none);
    lemma_fill_packs(lines, none, split::first_part(), groups, false);
    assert forall|k: int| 0 <= k < parts.len() implies (#[trigger] parts[k]).body() == message_rows(
        rows[k],
        split::flatten(rows.take(k)),
        k == 0,
    ) && carries(parts[k].message(), rows[k], split::flatten(rows.take(k)), k == 0) by {
        assert(is_packed(lines, none, parts, k));
        let before = rows_ahead(parts, k);
        assert(none + before =~= before);
        let part = parts[k];
        assert(part.body() =~= message_rows(rows[k], before, k == 0));
        if part.closed {
            assert(part.body() + part.footer() =~= part.body().push("```"@));
        } else {
            assert(part.body() + part.footer() =~= part.body());
        }
    }
    assert forall|k: int| 0 <= k < messages@.len() implies carries(
        (#[trigger] messages@[k])@,
        rows[k],
        split::flatten(rows.take(k)),
        k == 0,
    ) by {
        assert(text::texts(messages@)[k] == split::messages(parts)[k]);
        assert(parts[k].message() == messages@[k]@);
    }
    assert forall|k: int| 0 < k < messages@.len() implies starts_anew(
        lines,
        message_rows(rows[k - 1], split::flatten(rows.take(k - 1)), k == 1),
        split::flatten(rows.take(k)),
        #[trigger] rows[k],
    ) by {
        assert(is_packed(lines, none, parts, k));
        assert(none + rows_ahead(parts, k) =~= rows_ahead(parts, k));
        assert(parts[k - 1].body() == message_rows(
            rows[k - 1],
            split::flatten(rows.take(k - 1)),
            k - 1 == 0,
        ));
    }
    assert forall|k: int| 0 <= k < messages@.len() implies is_not_overfull(
        lines,
        message_rows(rows[k], split::flatten(rows.take(k)), k == 0),
        #[trigger] rows[k],
    ) by {
        assert(is_packed(lines, none, parts, k));
        assert(parts[k].body() == message_rows(rows[k], split::flatten(rows.take(k)), k == 0));
    }
    rows
}

proof fn lemma_carried_rows(parts: Seq<Part>)
    ensures
        split::carried_rows(parts) == split::flatten(rows_of(parts)),
    decreases parts.len(),
{
    if parts.len() > 0 {
        lemma_carried_rows(parts.skip(1));
        assert(rows_of(parts).skip(1) =~= rows_of(parts.skip(1)));
    }
}

/// A report of up to 2000 characters is one message.
pub proof fn law_short_reports_stay_whole(report: &str, messages: Vec<String>)
    requires
        call_ensures(split_report, (report,), messages),
        report@.len() <= 2_000,
    ensures
        messages@.len() == 1,
        messages@[0]@ == report@,
{
    let all = text::texts(messages@);
    assert(all =~= seq![report@]);
    assert(all.len() == 1);
    assert(all[0] == messages@[0]@);
}

/// No message has more than 2000 characters.
pub proof fn law_no_message_is_too_long(report: &str, messages: Vec<String>, k: int)
    requires
        call_ensures(split_report, (report,), messages),
        0 <= k < messages@.len(),
    ensures
        messages@[k]@.len() <= 2_000,
{
}

/// A row that is too long is cut into pieces of the same length, but for the last, which has the rest
/// of it.
pub proof fn law_long_rows_are_cut(row: Seq<char>, maximum: int, k: int)
    requires
        maximum > 0,
        0 <= k < split::expand_row(row, maximum).len(),
    ensures
        ({
            let pieces = split::expand_row(row, maximum);
            &&& k + 1 < pieces.len() ==> (k + 1) * maximum < row.len() && pieces[k] == row.subrange(
                k * maximum,
                (k + 1) * maximum,
            )
            &&& k + 1 == pieces.len() ==> k * maximum <= row.len() <= (k + 1) * maximum
                && pieces[k] == row.skip(k * maximum)
            &&& row.len() <= maximum ==> pieces == seq![row]
            &&& pieces[k].len() == 0 ==> row.len() == 0
        }),
    decreases row.len(),
{
    let pieces = split::expand_row(row, maximum);
    if row.len() > maximum {
        let rest = row.skip(maximum);
        let tail = split::expand_row(rest, maximum);
        if k > 0 {
            law_long_rows_are_cut(rest, maximum, k - 1);
            assert(pieces[k] == tail[k - 1]);
            assert((k - 1) * maximum + maximum == k * maximum) by (nonlinear_arith);
            assert(k * maximum + maximum == (k + 1) * maximum) by (nonlinear_arith);
            assert((k - 1) * maximum >= 0) by (nonlinear_arith)
                requires
                    k >= 1,
                    maximum > 0,
            ;
            if k + 1 < pieces.len() {
                assert(rest.subrange((k - 1) * maximum, k * maximum) =~= row.subrange(
                    k * maximum,
                    (k + 1) * maximum,
                ));
            } else {
                assert(rest.skip((k - 1) * maximum) =~= row.skip(k * maximum));
            }
        } else {
            assert(pieces[0] == row.take(maximum));
            assert(tail.len() > 0);
            assert(row.take(maximum) =~= row.subrange(0, maximum));
            assert(0 * maximum == 0 && 1 * maximum == maximum) by (nonlinear_arith);
        }
    } else {
        assert(0 * maximum == 0 && 1 * maximum == maximum) by (nonlinear_arith);
        assert(row.skip(0) =~= row);
    }
}

/// The rows of a text are cut one after the other, and those that are short enough stay as they are.
pub proof fn law_rows_are_cut_in_order(rows: Seq<Seq<char>>, row: Seq<char>, maximum: int)
    ensures
        split::expand_rows(Seq::empty(), maximum).len() == 0,
        split::expand_rows(rows.push(row), maximum) == split::expand_rows(rows, maximum)
            + split::expand_row(row, maximum),
        row.len() <= maximum ==> split::expand_rows(rows.push(row), maximum) == split::expand_rows(
            rows,
            maximum,
        ).push(row),
{
    assert(rows.push(row).drop_last() =~= rows);
    assert(split::expand_rows(rows, maximum) + seq![row] =~= split::expand_rows(
        rows,
        maximum,
    ).push(row));
}

/// The lines of a text are cut where they are too long.
pub proof fn law_lines_are_cut(text: &str, maximum: usize, pieces: Vec<String>)
    requires
        call_ensures(expand_long_lines, (text, maximum), pieces),
    ensures
        text::texts(pieces@) == split::expand_rows(text::lines(text@), maximum as int),
{
}

} // verus!
