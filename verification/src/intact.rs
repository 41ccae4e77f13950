//! Account sections stay whole on their way into messages.

use vstd::prelude::*;

use crate::codex::AccountResult;
use crate::discord;
use crate::markup;
use crate::sections;
use crate::split;
use crate::text;
use crate::time::LocalTime;

verus! {

proof fn lemma_next_close_is(rows: Seq<Seq<char>>, from: int, at: int)
    requires
        0 <= from <= at < rows.len(),
        sections::closes_title(rows[at]),
        forall|j: int| from <= j < at ==> !sections::closes_title(#[trigger] rows[j]),
    ensures
        sections::next_close(rows, from) == Some(at),
    decreases at - from,
{
    if from < at {
        assert(!sections::closes_title(rows[from]));
        lemma_next_close_is(rows, from + 1, at);
    }
}

proof fn lemma_next_last_row_is(rows: Seq<Seq<char>>, from: int, at: int)
    requires
        0 <= from <= at < rows.len(),
        sections::is_last_row(rows, at),
        forall|j: int| from <= j < at ==> !#[trigger] sections::is_last_row(rows, j),
    ensures
        sections::next_last_row(rows, from) == Some(at),
    decreases at - from,
{
    if from < at {
        assert(!sections::is_last_row(rows, from));
        lemma_next_last_row_is(rows, from + 1, at);
    }
}

/// Whether `title` opens with two asterisks in its first row, and closes with two in its last.
spec fn is_title(title: Seq<Seq<char>>) -> bool {
    &&& title.len() > 0
    &&& sections::is_marked(title[0])
    &&& sections::closes_title(title[0].skip(2)) == (title.len() == 1)
    &&& forall|j: int|
        0 < j < title.len() ==> sections::closes_title(#[trigger] title[j]) == (j == title.len()
            - 1)
}

/// Whether none of `rows` starts with two asterisks.
spec fn none_marked(rows: Seq<Seq<char>>) -> bool {
    forall|j: int| 0 <= j < rows.len() ==> !sections::is_marked(#[trigger] rows[j])
}

/// The row that ends a card.
spec fn fence() -> Seq<char> {
    seq!['`', '`', '`']
}

/// Whether none of `rows` is a code fence.
spec fn none_fence(rows: Seq<Seq<char>>) -> bool {
    forall|j: int| 0 <= j < rows.len() ==> #[trigger] rows[j] != fence()
}

/// The rows of a section: its title, its warning, the opening of its card, the card, and the
/// fence behind it.
spec fn shaped(
    title: Seq<Seq<char>>,
    warning: Seq<Seq<char>>,
    card: Seq<Seq<char>>,
) -> Seq<Seq<char>> {
    title + warning + seq!["```text"@] + card + seq![fence()]
}

/// A section is found where it stands between empty rows, or at the end.
proof fn lemma_section_is_found(
    rows: Seq<Seq<char>>,
    start: int,
    title: Seq<Seq<char>>,
    warning: Seq<Seq<char>>,
    card: Seq<Seq<char>>,
)
    requires
        is_title(title),
        none_marked(warning),
        none_fence(card),
        0 < start,
        start + shaped(title, warning, card).len() <= rows.len(),
        rows.subrange(start, start + shaped(title, warning, card).len()) == shaped(
            title,
            warning,
            card,
        ),
        rows[start - 1].len() == 0,
        ({
            let behind = start + shaped(title, warning, card).len();
            behind == rows.len() || (behind + 1 < rows.len() && rows[behind].len() == 0
                && sections::is_marked(rows[behind + 1]))
        }),
    ensures
        sections::section_end(rows, start) == Some(
            start + shaped(title, warning, card).len() - 1,
        ),
{
    reveal_strlit("```text");
    let section = shaped(title, warning, card);
    let close = start + title.len() - 1;
    let opening = close + 1 + warning.len();
    let end = start + section.len() - 1;
    assert forall|j: int| 0 <= j < section.len() implies rows[start + j] == #[trigger] section[j] by {
        assert(rows.subrange(start, start + section.len())[j] == section[j]);
    }
    assert forall|j: int| 0 <= j < title.len() implies rows[start + j] == #[trigger] title[j] by {
        assert(section[j] == title[j]);
    }
    assert(rows[start] == title[0]);
    if title.len() > 1 {
        assert(rows[close] == title[title.len() - 1]);
        assert forall|j: int| start + 1 <= j < close implies !sections::closes_title(
            #[trigger] rows[j],
        ) by {
            assert(rows[j] == title[j - start]);
        }
        lemma_next_close_is(rows, start + 1, close);
    }
    assert(sections::title_end(rows, start) == Some(close));
    assert(section[section.len() - 1] == fence());
    assert(rows[end] == fence());
    assert(sections::is_last_row(rows, end));
    assert(section[opening - start] == "```text"@);
    assert(rows[opening] == "```text"@);
    assert(rows[opening].len() == 7);
    assert forall|j: int| close + 1 <= j < end implies !#[trigger] sections::is_last_row(rows, j) by {
        if j < opening {
            if j + 2 < opening {
                assert(section[j + 2 - start] == warning[j + 2 - close - 1]);
                assert(rows[j + 2] == warning[j + 2 - close - 1]);
                assert(!sections::is_marked(rows[j + 2]));
            } else if j + 2 == opening {
                assert(!sections::is_marked("```text"@));
            }
        } else if j > opening {
            assert(section[j - start] == card[j - opening - 1]);
            assert(rows[j] == card[j - opening - 1]);
        }
    }
    lemma_next_last_row_is(rows, close + 1, end);
}

proof fn lemma_closes_markdown(s: Seq<char>, rest: Seq<char>)
    ensures
        sections::closes_title(markup::markdown(s) + rest) == sections::closes_title(rest),
    decreases s.len(),
{
    let all = markup::markdown(s) + rest;
    if s.len() == 0 {
        assert(all =~= rest);
    } else {
        let tail = markup::markdown(s.skip(1)) + rest;
        lemma_closes_markdown(s.skip(1), rest);
        if s[0] == '\\' || s[0] == '*' {
            assert(all[0] == '\\');
            assert(all.skip(2) =~= tail);
        } else {
            assert(all[0] == s[0]);
            assert(all.skip(1) =~= tail);
            if all.len() < 2 {
                assert(tail.len() < 2);
            }
        }
    }
}

proof fn lemma_strip_markdown(s: Seq<char>)
    ensures
        text::strip_return(markup::markdown(s)) == markup::markdown(text::strip_return(s)),
{
    if s.len() > 0 {
        let init = s.drop_last();
        let last = seq![s.last()];
        assert(s =~= init + last);
        markup::lemma_markdown_concat(init, last);
        assert(last.skip(1) =~= Seq::<char>::empty());
        assert(markup::markdown(last.skip(1)) =~= Seq::<char>::empty());
        assert(markup::markdown(last) =~= markup::markdown_char(s.last()));
        let all = markup::markdown(s);
        assert(all.last() == s.last());
        if s.last() == '\r' {
            assert(all.drop_last() =~= markup::markdown(init));
        }
    }
}

proof fn lemma_markdown_starts(s: Seq<char>)
    ensures
        !sections::is_marked(markup::markdown(s)),
        s.len() > 0 ==> markup::markdown(s).len() > 0 && markup::markdown(s)[0] != '*',
{
}

/// The first line of `s`, and what is behind it.
proof fn lemma_first_line(s: Seq<char>) -> (parts: (Seq<char>, Seq<char>))
    requires
        !text::is_one_line(s),
    ensures
        s == parts.0 + seq!['\n'] + parts.1,
        text::is_one_line(parts.0),
        parts.1.len() < s.len(),
{
    let n = text::first_index(s, '\n') as int;
    text::lemma_first_index(s, '\n');
    if n >= s.len() {
        assert(text::is_one_line(s));
    }
    let first = s.take(n);
    assert forall|i: int| 0 <= i < first.len() implies #[trigger] first[i] != '\n' by {
        assert(first[i] == s[i]);
    }
    assert(s =~= first + seq!['\n'] + s.skip(n + 1));
    (first, s.skip(n + 1))
}

proof fn lemma_markdown_of_line(s: Seq<char>)
    requires
        text::is_one_line(s),
    ensures
        text::is_one_line(markup::markdown(s)),
    decreases s.len(),
{
    if s.len() > 0 {
        let rest = s.skip(1);
        assert forall|i: int| 0 <= i < rest.len() implies #[trigger] rest[i] != '\n' by {
            assert(rest[i] == s[i + 1]);
        }
        lemma_markdown_of_line(rest);
        let all = markup::markdown(s);
        let head = markup::markdown_char(s[0]);
        assert(s[0] != '\n');
        assert forall|i: int| 0 <= i < all.len() implies #[trigger] all[i] != '\n' by {
            if i >= head.len() {
                assert(all[i] == markup::markdown(rest)[i - head.len()]);
            }
        }
    }
}

proof fn lemma_markdown_around(a: Seq<char>, b: Seq<char>)
    ensures
        markup::markdown(a + seq!['\n'] + b) == markup::markdown(a) + seq!['\n'] + markup::markdown(
            b,
        ),
{
    let newline = seq!['\n'];
    markup::lemma_markdown_concat(a + newline, b);
    markup::lemma_markdown_concat(a, newline);
    assert(newline.skip(1) =~= Seq::<char>::empty());
    assert(markup::markdown(newline.skip(1)) =~= Seq::<char>::empty());
    assert(markup::markdown(newline) =~= newline);
}

/// Only the last row of an escaped name and two asterisks closes a title.
proof fn lemma_name_rows(name: Seq<char>)
    ensures
        ({
            let rows = text::pieces(markup::markdown(name) + seq!['*', '*']);
            &&& rows.len() > 0
            &&& forall|j: int|
                0 <= j < rows.len() ==> sections::closes_title(#[trigger] rows[j]) == (j
                    == rows.len() - 1)
        }),
    decreases name.len(),
{
    let mark = seq!['*', '*'];
    let escaped = markup::markdown(name) + mark;
    let rows = text::pieces(escaped);
    if text::is_one_line(name) {
        lemma_markdown_of_line(name);
        assert(text::is_one_line(escaped)) by {
            assert forall|i: int| 0 <= i < escaped.len() implies #[trigger] escaped[i] != '\n' by {
                if i < markup::markdown(name).len() {
                    assert(escaped[i] == markup::markdown(name)[i]);
                }
            }
        }
        text::lemma_one_piece(escaped);
        assert(escaped.last() == '*');
        lemma_closes_markdown(name, mark);
    } else {
        let (first, rest) = lemma_first_line(name);
        lemma_name_rows(rest);
        lemma_markdown_around(first, rest);
        let tail = markup::markdown(rest) + mark;
        assert(escaped =~= markup::markdown(first) + seq!['\n'] + tail);
        text::lemma_pieces_around(markup::markdown(first), tail);
        lemma_markdown_of_line(first);
        text::lemma_one_piece(markup::markdown(first));
        lemma_strip_markdown(first);
        let head = markup::markdown(text::strip_return(first));
        lemma_closes_markdown(text::strip_return(first), Seq::empty());
        assert(head + Seq::<char>::empty() =~= head);
        assert(rows =~= seq![head] + text::pieces(tail));
        assert forall|j: int| 0 <= j < rows.len() implies sections::closes_title(#[trigger] rows[j])
            == (j == rows.len() - 1) by {
            if j > 0 {
                assert(rows[j] == text::pieces(tail)[j - 1]);
            }
        }
    }
}

/// The title of an account.
proof fn lemma_title_rows(name: Seq<char>)
    ensures
        is_title(text::pieces(seq!['*', '*'] + markup::markdown(name) + seq!['*', '*'])),
{
    let mark = seq!['*', '*'];
    let inner = markup::markdown(name) + mark;
    lemma_name_rows(name);
    assert(mark + markup::markdown(name) + mark =~= mark + inner);
    text::lemma_pieces_behind(mark, inner);
    let rows = text::pieces(inner);
    let title = text::pieces(mark + inner);
    assert(title[0] == mark + rows[0]);
    assert(title[0].skip(2) =~= rows[0]);
    assert forall|j: int| 0 < j < title.len() implies sections::closes_title(#[trigger] title[j])
        == (j == title.len() - 1) by {
        assert(title[j] == rows[j]);
    }
}

/// No row of an escaped message starts with two asterisks.
proof fn lemma_message_rows(message: Seq<char>)
    ensures
        text::pieces(markup::markdown(message)).len() > 0,
        none_marked(text::pieces(markup::markdown(message))),
    decreases message.len(),
{
    let rows = text::pieces(markup::markdown(message));
    if text::is_one_line(message) {
        lemma_markdown_of_line(message);
        text::lemma_one_piece(markup::markdown(message));
        lemma_strip_markdown(message);
        lemma_markdown_starts(text::strip_return(message));
    } else {
        let (first, rest) = lemma_first_line(message);
        lemma_message_rows(rest);
        lemma_markdown_around(first, rest);
        text::lemma_pieces_around(markup::markdown(first), markup::markdown(rest));
        lemma_markdown_of_line(first);
        text::lemma_one_piece(markup::markdown(first));
        lemma_strip_markdown(first);
        lemma_markdown_starts(text::strip_return(first));
        let tail = text::pieces(markup::markdown(rest));
        assert(rows =~= seq![markup::markdown(text::strip_return(first))] + tail);
        assert forall|j: int| 0 <= j < rows.len() implies !sections::is_marked(
            #[trigger] rows[j],
        ) by {
            if j > 0 {
                assert(rows[j] == tail[j - 1]);
            }
        }
    }
}

/// A line whose fences are broken up is no fence.
proof fn lemma_broken_line(line: Seq<char>)
    ensures
        text::strip_return(markup::broken_fences(line)) != fence(),
{
    let broken = markup::broken_fences(line);
    if text::strip_return(broken) == fence() {
        let stripped = text::strip_return(broken);
        assert(stripped.len() == 3);
        assert(stripped[0] == '`' && stripped[1] == '`' && stripped[2] == '`');
        assert forall|i: int| 0 <= i < 3 implies #[trigger] broken[i] == '`' by {
            assert(broken[i] == text::strip_return(broken)[i]);
        }
        markup::lemma_broken_start(line, 3);
    }
}

proof fn lemma_broken_of_line(s: Seq<char>)
    requires
        text::is_one_line(s),
    ensures
        text::is_one_line(markup::broken_fences(s)),
    decreases s.len(),
{
    if s.len() > 0 {
        let n = if markup::starts_with_backticks(s, 3) {
            3int
        } else {
            1int
        };
        let rest = s.skip(n);
        assert forall|i: int| 0 <= i < rest.len() implies #[trigger] rest[i] != '\n' by {
            assert(rest[i] == s[i + n]);
        }
        lemma_broken_of_line(rest);
        assert(s[0] != '\n');
        let tail = markup::broken_fences(rest);
        let all = markup::broken_fences(s);
        assert forall|i: int| 0 <= i < all.len() implies #[trigger] all[i] != '\n' by {
            let head = all.len() - tail.len();
            if i >= head {
                assert(all[i] == tail[i - head]);
            }
        }
    }
}

/// No row of a card whose fences are broken up is a fence.
proof fn lemma_card_rows(card: Seq<char>)
    ensures
        text::pieces(markup::broken_fences(card)).len() > 0,
        none_fence(text::pieces(markup::broken_fences(card))),
    decreases card.len(),
{
    let rows = text::pieces(markup::broken_fences(card));
    if text::is_one_line(card) {
        lemma_broken_of_line(card);
        text::lemma_one_piece(markup::broken_fences(card));
        lemma_broken_line(card);
    } else {
        let (first, rest) = lemma_first_line(card);
        lemma_card_rows(rest);
        markup::lemma_broken_around(first, rest);
        text::lemma_pieces_around(markup::broken_fences(first), markup::broken_fences(rest));
        lemma_broken_of_line(first);
        text::lemma_one_piece(markup::broken_fences(first));
        lemma_broken_line(first);
        let tail = text::pieces(markup::broken_fences(rest));
        assert(rows =~= seq![text::strip_return(markup::broken_fences(first))] + tail);
        assert forall|j: int| 0 <= j < rows.len() implies #[trigger] rows[j] != fence() by {
            if j > 0 {
                assert(rows[j] == tail[j - 1]);
            }
        }
    }
}

/// The rows of the section of an account.
spec fn section_rows(result: AccountResult) -> Seq<Seq<char>> {
    text::pieces(discord::account_section(result))
}

proof fn lemma_plain_piece(s: Seq<char>)
    requires
        text::is_one_line(s),
        s.len() > 0,
        s.last() != '\r',
    ensures
        text::pieces(s) == seq![s],
{
    text::lemma_one_piece(s);
}

/// The rows behind the title and the warning of a section.
proof fn lemma_card_block(card: Seq<char>)
    ensures
        text::pieces("```text"@ + seq!['\n'] + card + seq!['\n'] + "```"@) == seq!["```text"@]
            + text::pieces(card) + seq![fence()],
{
    reveal_strlit("```text");
    reveal_strlit("```");
    assert("```"@ =~= fence());
    lemma_plain_piece("```text"@);
    lemma_plain_piece("```"@);
    let tail = card + seq!['\n'] + "```"@;
    text::lemma_pieces_around(card, "```"@);
    text::lemma_pieces_around("```text"@, tail);
    assert("```text"@ + seq!['\n'] + card + seq!['\n'] + "```"@ =~= "```text"@ + seq!['\n'] + tail);
    assert(text::pieces("```text"@ + seq!['\n'] + tail) =~= seq!["```text"@] + text::pieces(card)
        + seq![fence()]);
}

/// The title, the warning and the card of the section of an account.
proof fn lemma_section_shape(result: AccountResult) -> (shape: (
    Seq<Seq<char>>,
    Seq<Seq<char>>,
    Seq<Seq<char>>,
))
    ensures
        is_title(shape.0),
        none_marked(shape.1),
        none_fence(shape.2),
        section_rows(result) == shaped(shape.0, shape.1, shape.2),
{
    reveal_strlit("**");
    reveal_strlit("**\n");
    reveal_strlit("\n");
    reveal_strlit("\n```");
    reveal_strlit("```");
    reveal_strlit("```text");
    reveal_strlit("```text\n");
    reveal_strlit("ERROR: ");
    reveal_strlit("**\n```text\nERROR: ");
    let mark = seq!['*', '*'];
    let newline = seq!['\n'];
    assert("**"@ =~= mark);
    assert("**\n"@ =~= mark + newline);
    assert("\n"@ =~= newline);
    assert("\n```"@ =~= newline + "```"@);
    assert("```text\n"@ =~= "```text"@ + newline);
    let section = discord::account_section(result);
    match result {
        AccountResult::Success(status) => {
            let name = status.account_name@;
            let card = markup::broken_fences(status.rendered_status@);
            let title = mark + markup::markdown(name) + mark;
            let block = "```text"@ + newline + card + newline + "```"@;
            lemma_title_rows(name);
            lemma_card_rows(status.rendered_status@);
            lemma_card_block(card);
            match status.anchor_outcome.failure() {
                Some(error) => {
                    let warning = discord::anchor_warning() + markup::markdown(error);
                    lemma_warning_rows(error);
                    assert(section =~= title + newline + (warning + newline + block));
                    text::lemma_pieces_around(warning, block);
                    text::lemma_pieces_around(title, warning + newline + block);
                    assert(section_rows(result) =~= shaped(
                        text::pieces(title),
                        text::pieces(warning),
                        text::pieces(card),
                    ));
                    (text::pieces(title), text::pieces(warning), text::pieces(card))
                },
                None => {
                    assert(section =~= title + newline + block);
                    text::lemma_pieces_around(title, block);
                    assert(section_rows(result) =~= shaped(
                        text::pieces(title),
                        Seq::empty(),
                        text::pieces(card),
                    ));
                    (text::pieces(title), Seq::empty(), text::pieces(card))
                },
            }
        },
        AccountResult::Failure { account_name, error } => {
            let name = account_name@;
            let broken = markup::broken_fences(error@);
            let card = "ERROR: "@ + broken;
            let title = mark + markup::markdown(name) + mark;
            let block = "```text"@ + newline + card + newline + "```"@;
            assert("**\n```text\nERROR: "@ =~= mark + newline + "```text"@ + newline + "ERROR: "@);
            lemma_title_rows(name);
            lemma_card_rows(error@);
            lemma_card_block(card);
            text::lemma_pieces_behind("ERROR: "@, broken);
            let rows = text::pieces(card);
            assert forall|j: int| 0 <= j < rows.len() implies #[trigger] rows[j] != fence() by {
                if j == 0 {
                    assert(rows[0][0] == 'E');
                } else {
                    assert(rows[j] == text::pieces(broken)[j]);
                }
            }
            assert(section =~= title + newline + block);
            text::lemma_pieces_around(title, block);
            assert(section_rows(result) =~= shaped(text::pieces(title), Seq::empty(), rows));
            (text::pieces(title), Seq::empty(), rows)
        },
    }
}

/// No row of a warning starts with two asterisks.
proof fn lemma_warning_rows(error: Seq<char>)
    ensures
        none_marked(text::pieces(discord::anchor_warning() + markup::markdown(error))),
{
    reveal_strlit(
        "⚠️ Automatic 5h-window anchor failed; showing the best available status: ",
    );
    let start = discord::anchor_warning();
    assert(start.len() > 0 && start[0] != '*');
    assert(text::is_one_line(start));
    lemma_message_rows(error);
    text::lemma_pieces_behind(start, markup::markdown(error));
    let rows = text::pieces(start + markup::markdown(error));
    assert forall|j: int| 0 <= j < rows.len() implies !sections::is_marked(#[trigger] rows[j]) by {
        if j == 0 {
            assert(rows[0][0] == start[0]);
        } else {
            assert(rows[j] == text::pieces(markup::markdown(error))[j]);
        }
    }
}

/// The rows of the report on `results`.
spec fn layout(timestamp: LocalTime, results: Seq<AccountResult>) -> Seq<Seq<char>>
    decreases results.len(),
{
    if results.len() == 0 {
        seq!["**Codex Usage Monitor**"@, "Timestamp: "@ + discord::stamp(timestamp)]
    } else {
        layout(timestamp, results.drop_last()) + seq![Seq::<char>::empty()] + section_rows(
            results.last(),
        )
    }
}

proof fn lemma_report_rows(timestamp: LocalTime, results: Seq<AccountResult>)
    requires
        discord::is_stamped(timestamp),
    ensures
        text::pieces(discord::report(timestamp, results)) == layout(timestamp, results),
    decreases results.len(),
{
    let newline = seq!['\n'];
    if results.len() == 0 {
        reveal_strlit("\n");
        reveal_strlit("**Codex Usage Monitor**");
        reveal_strlit("Timestamp: ");
        reveal_strlit("**Codex Usage Monitor**\nTimestamp: ");
        let stamp = discord::stamp(timestamp);
        let kept = "**Codex Usage Monitor**\nTimestamp: "@ + stamp;
        let head = discord::report_head(timestamp);
        assert(discord::sections(results) =~= Seq::<char>::empty());
        assert(head + discord::sections(results) =~= head);
        assert(head =~= kept.push('\n'));
        assert(head.drop_last() =~= kept);
        assert(kept.last() == stamp.last());
        assert(text::trim_end(head) == text::trim_end(kept));
        assert(discord::report(timestamp, results) == kept);
        let second = "Timestamp: "@ + stamp;
        assert(kept =~= "**Codex Usage Monitor**"@ + newline + second);
        assert forall|i: int| 0 <= i < second.len() implies #[trigger] second[i] != '\n' by {
            if i >= 11 {
                assert(second[i] == stamp[i - 11]);
            }
        }
        assert(second.last() == stamp.last());
        lemma_plain_piece("**Codex Usage Monitor**"@);
        lemma_plain_piece(second);
        text::lemma_pieces_around("**Codex Usage Monitor**"@, second);
        assert(text::pieces(kept) =~= layout(timestamp, results));
    } else {
        reveal_strlit("\n\n");
        let init = results.drop_last();
        let last = results.last();
        let section = discord::account_section(last);
        assert(init.push(last) =~= results);
        discord::law_report_grows_by_a_section(timestamp, init, last);
        lemma_report_rows(timestamp, init);
        let before = discord::report(timestamp, init);
        let empty = Seq::<char>::empty();
        assert(discord::report(timestamp, results) =~= before + newline + (empty + newline
            + section));
        text::lemma_pieces_around(empty, section);
        text::lemma_pieces_around(before, empty + newline + section);
        text::lemma_one_piece(empty);
        assert(text::pieces(discord::report(timestamp, results)) =~= layout(timestamp, results));
    }
}

proof fn lemma_layout_starts(timestamp: LocalTime, results: Seq<AccountResult>, i: int)
    requires
        0 <= i <= results.len(),
    ensures
        layout(timestamp, results.take(i)).len() >= 2,
        layout(timestamp, results.take(i)).len() <= layout(timestamp, results).len(),
        layout(timestamp, results).take(layout(timestamp, results.take(i)).len() as int) == layout(
            timestamp,
            results.take(i),
        ),
        i < results.len() ==> layout(timestamp, results.take(i)).len() < layout(
            timestamp,
            results,
        ).len(),
    decreases results.len(),
{
    let all = layout(timestamp, results);
    if i == results.len() {
        assert(results.take(i) =~= results);
        assert(all.take(all.len() as int) =~= all);
        if results.len() > 0 {
            lemma_layout_starts(timestamp, results.drop_last(), i - 1);
        }
    } else {
        let init = results.drop_last();
        lemma_layout_starts(timestamp, init, i);
        assert(init.take(i) =~= results.take(i));
        let n = layout(timestamp, results.take(i)).len() as int;
        assert(all.take(n) =~= layout(timestamp, init).take(n));
    }
}

/// Where the section of an account is among the rows of a report.
spec fn first_row(timestamp: LocalTime, results: Seq<AccountResult>, i: int) -> int {
    layout(timestamp, results.take(i)).len() as int + 1
}

/// The section of an account is found among the rows of a report.
proof fn lemma_section_in_report(timestamp: LocalTime, results: Seq<AccountResult>, i: int)
    requires
        0 <= i < results.len(),
    ensures
        ({
            let rows = layout(timestamp, results);
            let start = first_row(timestamp, results, i);
            let section = section_rows(results[i]);
            &&& 0 < start
            &&& section.len() > 1
            &&& start + section.len() <= rows.len()
            &&& rows.subrange(start, start + section.len()) == section
            &&& rows[start - 1].len() == 0
            &&& start + section.len() == layout(timestamp, results.take(i + 1)).len()
            &&& rows[start + section.len() - 1] == fence()
            &&& sections::section_end(rows, start) == Some(start + section.len() - 1)
        }),
{
    let rows = layout(timestamp, results);
    let start = first_row(timestamp, results, i);
    let section = section_rows(results[i]);
    lemma_layout_starts(timestamp, results, i);
    lemma_layout_starts(timestamp, results, i + 1);
    let longer = layout(timestamp, results.take(i + 1));
    let shorter = layout(timestamp, results.take(i));
    assert(results.take(i + 1).drop_last() =~= results.take(i));
    assert(longer =~= shorter + seq![Seq::<char>::empty()] + section);
    let behind = longer.len() as int;
    let (title, warning, card) = lemma_section_shape(results[i]);
    assert(rows.take(behind)[start - 1] == rows[start - 1]);
    assert(rows.subrange(start, behind) =~= longer.subrange(start, behind));
    assert(longer.subrange(start, behind) =~= section);
    assert(section[section.len() - 1] == fence());
    assert(rows.subrange(start, behind)[section.len() - 1] == section[section.len() - 1]);
    if i + 1 < results.len() {
        lemma_layout_starts(timestamp, results, i + 2);
        let next = layout(timestamp, results.take(i + 2));
        let (next_title, next_warning, next_card) = lemma_section_shape(results[i + 1]);
        assert(results.take(i + 2).drop_last() =~= results.take(i + 1));
        assert(next =~= longer + seq![Seq::<char>::empty()] + section_rows(results[i + 1]));
        assert(section_rows(results[i + 1])[0] == next_title[0]);
        assert(next[behind].len() == 0);
        assert(next[behind + 1] == next_title[0]);
        assert(rows.take(next.len() as int)[behind] == rows[behind]);
        assert(rows.take(next.len() as int)[behind + 1] == rows[behind + 1]);
    } else {
        assert(results.take(i + 1) =~= results);
    }
    lemma_section_is_found(rows, start, title, warning, card);
}

/// Reading a report block by block comes to the section of every account.
proof fn lemma_reading_comes_to(timestamp: LocalTime, results: Seq<AccountResult>, i: int, j: int)
    requires
        0 <= j <= i < results.len(),
    ensures
        split::starts_block(
            layout(timestamp, results),
            first_row(timestamp, results, j),
            first_row(timestamp, results, i),
        ),
    decreases i - j,
{
    if j < i {
        let rows = layout(timestamp, results);
        let start = first_row(timestamp, results, j);
        let goal = first_row(timestamp, results, i);
        lemma_section_in_report(timestamp, results, j);
        lemma_section_in_report(timestamp, results, j + 1);
        lemma_reading_comes_to(timestamp, results, i, j + 1);
        lemma_first_rows_ordered(timestamp, results, j + 1, i);
        let gap = start + section_rows(results[j]).len();
        assert(gap + 1 == first_row(timestamp, results, j + 1));
        assert(rows[gap - 1] == fence());
        assert(sections::section_end(rows, gap) is None);
        assert(split::block_end(rows, gap) == gap);
        assert(split::starts_block(rows, gap, goal) == split::starts_block(rows, gap + 1, goal));
        assert(split::block_end(rows, start) == gap - 1);
        assert(split::starts_block(rows, start, goal) == split::starts_block(rows, gap, goal));
    }
}

proof fn lemma_first_rows_ordered(timestamp: LocalTime, results: Seq<AccountResult>, i: int, j: int)
    requires
        0 <= i <= j < results.len(),
    ensures
        first_row(timestamp, results, i) <= first_row(timestamp, results, j) < layout(
            timestamp,
            results,
        ).len(),
{
    lemma_section_in_report(timestamp, results, j);
    lemma_layout_starts(timestamp, results.take(j), i);
    assert(results.take(j).take(i) =~= results.take(i));
}

/// The two rows of the head of a report, and the empty row behind them, start no section.
proof fn lemma_head_rows(timestamp: LocalTime, results: Seq<AccountResult>)
    requires
        results.len() > 0,
    ensures
        first_row(timestamp, results, 0) == 3,
        layout(timestamp, results).len() > 3,
        forall|row: int|
            0 <= row < 3 ==> #[trigger] sections::section_end(layout(timestamp, results), row)
                is None,
{
    reveal_strlit("**Codex Usage Monitor**");
    reveal_strlit("Timestamp: ");
    let rows = layout(timestamp, results);
    lemma_layout_starts(timestamp, results, 0);
    lemma_section_in_report(timestamp, results, 0);
    assert(results.take(0) =~= Seq::<AccountResult>::empty());
    assert(layout(timestamp, results.take(0)).len() == 2);
    assert(rows.take(2)[0] == rows[0] && rows.take(2)[1] == rows[1]);
    assert(rows[0].len() > 0 && rows[1].len() > 0);
}

/// Reading a report block by block comes to the section of every account.
proof fn lemma_reading_a_report(timestamp: LocalTime, results: Seq<AccountResult>, i: int)
    requires
        0 <= i < results.len(),
    ensures
        split::starts_block(
            layout(timestamp, results),
            0,
            first_row(timestamp, results, i),
        ),
{
    let rows = layout(timestamp, results);
    let goal = first_row(timestamp, results, i);
    lemma_head_rows(timestamp, results);
    lemma_reading_comes_to(timestamp, results, i, 0);
    lemma_first_rows_ordered(timestamp, results, 0, i);
    assert(split::block_end(rows, 2) == 2);
    assert(split::starts_block(rows, 2, goal) == split::starts_block(rows, 3, goal));
    assert(split::block_end(rows, 1) == 1);
    assert(split::starts_block(rows, 1, goal) == split::starts_block(rows, 2, goal));
    assert(split::block_end(rows, 0) == 0);
    assert(split::starts_block(rows, 0, goal) == split::starts_block(rows, 1, goal));
}

/// The sections of the accounts from `j` on are found, in their order.
proof fn lemma_sections_from(timestamp: LocalTime, results: Seq<AccountResult>, j: int)
    requires
        0 <= j < results.len(),
    ensures
        sections::found(layout(timestamp, results), first_row(timestamp, results, j)) == Seq::new(
            (results.len() - j) as nat,
            |k: int| section_rows(results[j + k]),
        ),
    decreases results.len() - j,
{
    let rows = layout(timestamp, results);
    let start = first_row(timestamp, results, j);
    let section = section_rows(results[j]);
    let gap = start + section.len();
    lemma_section_in_report(timestamp, results, j);
    let found = sections::found(rows, start);
    assert(found == seq![section] + sections::found(rows, gap));
    if j + 1 < results.len() {
        lemma_section_in_report(timestamp, results, j + 1);
        lemma_sections_from(timestamp, results, j + 1);
        assert(gap + 1 == first_row(timestamp, results, j + 1));
        assert(sections::section_end(rows, gap) is None);
        let rest = sections::found(rows, gap + 1);
        assert(sections::found(rows, gap) == rest);
        assert forall|k: int| 0 < k < found.len() implies found[k] == section_rows(
            #[trigger] results[j + k],
        ) by {
            assert(found[k] == rest[k - 1]);
            assert(j + 1 + (k - 1) == j + k);
        }
    } else {
        assert(results.take(j + 1) =~= results);
        assert(sections::found(rows, gap) =~= Seq::empty());
    }
    assert(found =~= Seq::new(
        (results.len() - j) as nat,
        |k: int| section_rows(results[j + k]),
    ));
}

/// The sections that the text of a report tells are those of its accounts, in their order.
pub proof fn law_sections_of_a_report(timestamp: LocalTime, results: Seq<AccountResult>)
    requires
        results.len() > 0,
    ensures
        discord::is_stamped(timestamp) ==> sections::found(
            text::lines(discord::report(timestamp, results)),
            0,
        ) == results.map_values(
            |result: AccountResult| text::lines(discord::account_section(result)),
        ),
{
    if discord::is_stamped(timestamp) {
        let rows = text::lines(discord::report(timestamp, results));
        lemma_lines_of_a_report(timestamp, results);
        lemma_head_rows(timestamp, results);
        assert(sections::found(rows, 2) == sections::found(rows, 3));
        assert(sections::found(rows, 1) == sections::found(rows, 2));
        assert(sections::found(rows, 0) == sections::found(rows, 1));
        lemma_sections_from(timestamp, results, 0);
        let found = sections::found(rows, 0);
        assert forall|k: int| 0 <= k < results.len() implies found[k] == text::lines(
            discord::account_section(#[trigger] results[k]),
        ) by {
            lemma_lines_of_a_section(results[k]);
        }
        assert(found =~= results.map_values(
            |result: AccountResult| text::lines(discord::account_section(result)),
        ));
    }
}

proof fn lemma_lines_of_a_section(result: AccountResult)
    ensures
        text::lines(discord::account_section(result)) == section_rows(result),
{
    discord::lemma_section_ends(result);
    text::lemma_lines_are_pieces(discord::account_section(result));
}

proof fn lemma_lines_of_a_report(timestamp: LocalTime, results: Seq<AccountResult>)
    requires
        discord::is_stamped(timestamp),
        results.len() > 0,
    ensures
        text::lines(discord::report(timestamp, results)) == layout(timestamp, results),
{
    lemma_report_rows(timestamp, results);
    discord::lemma_report_ends(timestamp, results);
    discord::lemma_section_ends(results.last());
    assert(discord::report(timestamp, results).last() == '`');
    text::lemma_lines_are_pieces(discord::report(timestamp, results));
}

/// `s` with a newline alone as the end of each line.
pub open spec fn with_plain_line_ends(s: Seq<char>) -> Seq<char> {
    text::join(text::lines(s), seq!['\n'])
}

/// The section of an account that fits in one message stands whole in one of the messages of a
/// report, line ends aside; with them where it holds no carriage return.
pub proof fn law_account_sections_stay_whole(
    timestamp: LocalTime,
    results: Seq<AccountResult>,
    i: int,
)
    requires
        0 <= i < results.len(),
        split::TITLE_LENGTH + 1 + discord::account_section(results[i]).len()
            <= split::SAFE_CHUNK_LIMIT,
    ensures
        discord::is_stamped(timestamp) ==> ({
            let messages = split::report_messages(discord::report(timestamp, results));
            let section = discord::account_section(results[i]);
            &&& exists|k: int|
                0 <= k < messages.len() && (text::contains(#[trigger] messages[k], section)
                    || text::contains(messages[k], with_plain_line_ends(section)))
            &&& !section.contains('\r') ==> exists|k: int|
                0 <= k < messages.len() && text::contains(#[trigger] messages[k], section)
        }),
{
    let report = discord::report(timestamp, results);
    let messages = split::report_messages(report);
    let section = discord::account_section(results[i]);
    if discord::is_stamped(timestamp) {
        if report.len() <= split::DISCORD_LIMIT {
            discord::law_report_holds_every_section(timestamp, results, i);
            assert(text::contains(messages[0], section));
        } else {
            lemma_lines_of_a_report(timestamp, results);
            lemma_lines_of_a_section(results[i]);
            let rows = text::lines(report);
            let start = first_row(timestamp, results, i);
            lemma_section_in_report(timestamp, results, i);
            lemma_reading_a_report(timestamp, results, i);
            let end = start + section_rows(results[i]).len() - 1;
            text::lemma_pieces_are_short(section);
            assert(rows.subrange(start, end + 1) == text::lines(section));
            split::law_sections_that_fit_stay_whole(report, start, end);
            let k = choose|k: int|
                0 <= k < messages.len() && text::contains(
                    #[trigger] messages[k],
                    text::join(rows.subrange(start, end + 1), seq!['\n']),
                );
            assert(text::contains(messages[k], with_plain_line_ends(section)));
            if !section.contains('\r') {
                assert forall|j: int| 0 <= j < section.len() implies #[trigger] section[j]
                    != '\r' by {
                    assert(section.contains(section[j]));
                }
                text::lemma_pieces_join(section);
                assert(text::contains(messages[k], section));
            }
        }
    }
}

} // verus!
