//! Text that is safe to put into a message or a file name.

use vstd::prelude::*;

use crate::text::{chars_of, copy_range, text_of};

verus! {

/// What stands for `c` where Markdown is read.
pub open spec fn markdown_char(c: char) -> Seq<char> {
    if c == '\\' || c == '*' {
        seq!['\\', c]
    } else {
        seq![c]
    }
}

/// `s`, with a backslash before each backslash and each asterisk.
pub open spec fn markdown(s: Seq<char>) -> Seq<char>
    decreases s.len(),
{
    if s.len() == 0 {
        Seq::empty()
    } else {
        markdown_char(s[0]) + markdown(s.skip(1))
    }
}

proof fn lemma_markdown_grows(s: Seq<char>, i: int)
    requires
        0 <= i < s.len(),
    ensures
        markdown(s.take(i + 1)) == markdown(s.take(i)) + markdown_char(s[i]),
    decreases i,
{
    let longer = s.take(i + 1);
    let shorter = s.take(i);
    if i == 0 {
        assert(longer.skip(1) =~= Seq::<char>::empty());
        assert(markdown(longer.skip(1)) =~= Seq::<char>::empty());
        assert(markdown(longer) =~= markdown_char(s[0]));
        assert(markdown(shorter) =~= Seq::<char>::empty());
    } else {
        let rest = s.skip(1);
        lemma_markdown_grows(rest, i - 1);
        assert(longer.skip(1) =~= rest.take(i));
        assert(shorter.skip(1) =~= rest.take(i - 1));
        assert(markdown(longer) =~= markdown(shorter) + markdown_char(s[i]));
    }
}

/// Two texts are escaped one after the other.
pub proof fn lemma_markdown_concat(a: Seq<char>, b: Seq<char>)
    ensures
        markdown(a + b) == markdown(a) + markdown(b),
    decreases a.len(),
{
    if a.len() == 0 {
        assert(a + b =~= b);
        assert(markdown(a) + markdown(b) =~= markdown(b));
    } else {
        lemma_markdown_concat(a.skip(1), b);
        assert((a + b).skip(1) =~= a.skip(1) + b);
        assert(markdown(a + b) =~= markdown(a) + markdown(b));
    }
}

/// `text`, with a backslash before each backslash and each asterisk.
pub fn escape_markdown(text: &str) -> (r: String)
    ensures
        r@ == markdown(text@),
{
    let chars = chars_of(text);
    let mut out = String::new();
    let mut i: usize = 0;
    while i < chars.len()
        invariant
            i <= chars.len(),
            out@ == markdown(chars@.take(i as int)),
        decreases chars.len() - i,
    {
        let c = chars[i];
        if c == '\\' || c == '*' {
            out.push('\\');
        }
        out.push(c);
        proof {
            lemma_markdown_grows(chars@, i as int);
        }
        i = i + 1;
    }
    assert(chars@.take(i as int) =~= chars@);
    out
}

/// What a reader of Markdown sees of `s`: a backslash shows the character behind it.
pub open spec fn shown_markdown(s: Seq<char>) -> Seq<char>
    decreases s.len(),
{
    if s.len() == 0 {
        s
    } else if s[0] == '\\' && s.len() > 1 {
        seq![s[1]] + shown_markdown(s.skip(2))
    } else {
        seq![s[0]] + shown_markdown(s.skip(1))
    }
}

/// A reader of the escaped text sees the text.
pub proof fn law_escaped_markdown_shows_the_text(s: Seq<char>)
    ensures
        shown_markdown(markdown(s)) == s,
    decreases s.len(),
{
    if s.len() > 0 {
        let rest = s.skip(1);
        law_escaped_markdown_shows_the_text(rest);
        let escaped = markdown(s);
        if s[0] == '\\' || s[0] == '*' {
            assert(escaped.skip(2) =~= markdown(rest));
        } else {
            assert(escaped.skip(1) =~= markdown(rest));
        }
        assert(seq![s[0]] + rest =~= s);
    }
}

/// Whether `s` starts with `n` backticks.
pub open spec fn starts_with_backticks(s: Seq<char>, n: int) -> bool {
    n <= s.len() && forall|i: int| 0 <= i < n ==> #[trigger] s[i] == '`'
}

/// `s`, with each code fence in it broken up by an invisible space.
pub open spec fn broken_fences(s: Seq<char>) -> Seq<char>
    decreases s.len(),
{
    if s.len() == 0 {
        s
    } else if starts_with_backticks(s, 3) {
        seq!['`', '`', '\u{200b}', '`'] + broken_fences(s.skip(3))
    } else {
        seq![s[0]] + broken_fences(s.skip(1))
    }
}

/// `text`, with each code fence in it broken up by an invisible space.
pub fn escape_code_fence(text: &str) -> (r: String)
    ensures
        r@ == broken_fences(text@),
{
    let chars = chars_of(text);
    let mut out = String::new();
    let mut i: usize = 0;
    assert(chars@.skip(0) =~= chars@);
    assert(Seq::<char>::empty() + broken_fences(chars@) =~= broken_fences(chars@));
    while i < chars.len()
        invariant
            i <= chars.len(),
            broken_fences(chars@) == out@ + broken_fences(chars@.skip(i as int)),
        decreases chars.len() - i,
    {
        let ghost before = out@;
        let ghost rest = chars@.skip(i as int);
        let fence = chars.len() - i >= 3 && chars[i] == '`' && chars[i + 1] == '`' && chars[i + 2]
            == '`';
        proof {
            if fence {
                assert(starts_with_backticks(rest, 3));
            } else if starts_with_backticks(rest, 3) {
                assert(rest[0] == '`' && rest[1] == '`' && rest[2] == '`');
            }
        }
        if fence {
            out.push('`');
            out.push('`');
            out.push('\u{200b}');
            out.push('`');
            proof {
                assert(rest.skip(3) =~= chars@.skip(i + 3));
                assert(out@ + broken_fences(chars@.skip(i + 3)) =~= before + broken_fences(rest));
            }
            i = i + 3;
        } else {
            out.push(chars[i]);
            proof {
                assert(rest.skip(1) =~= chars@.skip(i + 1));
                assert(out@ + broken_fences(chars@.skip(i + 1)) =~= before + broken_fences(rest));
            }
            i = i + 1;
        }
    }
    assert(chars@.skip(i as int) =~= Seq::<char>::empty());
    assert(out@ + broken_fences(chars@.skip(i as int)) =~= out@);
    out
}

/// Whether `n` backticks stand next to each other in `s`.
pub open spec fn has_backticks(s: Seq<char>, n: int) -> bool {
    exists|i: int| 0 <= i <= s.len() && #[trigger] starts_with_backticks(s.skip(i), n)
}

proof fn lemma_rest_has_no_more_backticks(s: Seq<char>, k: int, n: int)
    requires
        0 <= k <= s.len(),
        !has_backticks(s, n),
    ensures
        !has_backticks(s.skip(k), n),
{
    let rest = s.skip(k);
    if has_backticks(rest, n) {
        let i = choose|i: int| 0 <= i <= rest.len() && #[trigger] starts_with_backticks(rest.skip(i), n);
        assert(rest.skip(i) =~= s.skip(k + i));
        assert(starts_with_backticks(s.skip(k + i), n));
    }
}

/// Text whose fences are broken up starts with no more than two backticks.
pub proof fn lemma_broken_start(s: Seq<char>, n: int)
    requires
        0 <= n <= 3,
        starts_with_backticks(broken_fences(s), n),
    ensures
        n <= 2,
        starts_with_backticks(s, n),
    decreases s.len(), n,
{
    let broken = broken_fences(s);
    if n > 0 {
        assert(broken[0] == '`');
        assert(s.len() > 0);
        if starts_with_backticks(s, 3) {
            assert(broken[2] == '\u{200b}');
            assert(n <= 2);
        } else {
            let rest = s.skip(1);
            assert(broken.skip(1) =~= broken_fences(rest));
            assert(starts_with_backticks(broken.skip(1), n - 1)) by {
                assert forall|i: int| 0 <= i < n - 1 implies #[trigger] broken.skip(1)[i] == '`' by {
                    assert(broken[i + 1] == '`');
                }
            }
            lemma_broken_start(rest, n - 1);
            assert forall|i: int| 0 <= i < n implies #[trigger] s[i] == '`' by {
                if i > 0 {
                    assert(s[i] == rest[i - 1]);
                }
            }
            assert(starts_with_backticks(s, n));
        }
    }
}

/// Fences are broken up line by line.
pub proof fn lemma_broken_around(a: Seq<char>, b: Seq<char>)
    ensures
        broken_fences(a + seq!['\n'] + b) == broken_fences(a) + seq!['\n'] + broken_fences(b),
    decreases a.len(),
{
    let all = a + seq!['\n'] + b;
    if a.len() == 0 {
        assert(all[0] == '\n');
        assert(!starts_with_backticks(all, 3));
        assert(all.skip(1) =~= b);
        assert(broken_fences(all) =~= broken_fences(a) + seq!['\n'] + broken_fences(b));
    } else if starts_with_backticks(a, 3) {
        assert forall|i: int| 0 <= i < 3 implies #[trigger] all[i] == '`' by {
            assert(all[i] == a[i]);
        }
        lemma_broken_around(a.skip(3), b);
        assert(all.skip(3) =~= a.skip(3) + seq!['\n'] + b);
        assert(broken_fences(all) =~= broken_fences(a) + seq!['\n'] + broken_fences(b));
    } else {
        if starts_with_backticks(all, 3) {
            assert(all[0] == '`' && all[1] == '`' && all[2] == '`');
            if a.len() < 3 {
                assert(all[a.len() as int] == '\n');
            }
            assert forall|i: int| 0 <= i < 3 implies #[trigger] a[i] == '`' by {
                assert(all[i] == a[i]);
            }
        }
        lemma_broken_around(a.skip(1), b);
        assert(all.skip(1) =~= a.skip(1) + seq!['\n'] + b);
        assert(broken_fences(all) =~= broken_fences(a) + seq!['\n'] + broken_fences(b));
    }
}

/// Text without five backticks in a row has no code fence once its fences are broken up.
pub proof fn law_escaped_text_has_no_fence(s: Seq<char>)
    requires
        !has_backticks(s, 5),
    ensures
        !has_backticks(broken_fences(s), 3),
    decreases s.len(),
{
    let broken = broken_fences(s);
    if has_backticks(broken, 3) {
        let i = choose|i: int| 0 <= i <= broken.len() && #[trigger] starts_with_backticks(broken.skip(i), 3);
        let at = broken.skip(i);
        assert(at[0] == '`' && at[1] == '`' && at[2] == '`');
        if s.len() == 0 {
            assert(false);
        } else if starts_with_backticks(s, 3) {
            let rest = s.skip(3);
            lemma_rest_has_no_more_backticks(s, 3, 5);
            law_escaped_text_has_no_fence(rest);
            let tail = broken_fences(rest);
            assert(broken =~= seq!['`', '`', '\u{200b}', '`'] + tail);
            if i >= 4 {
                assert(at =~= tail.skip(i - 4));
                assert(starts_with_backticks(tail.skip(i - 4), 3));
                assert(false);
            } else if i == 3 {
                assert(tail[0] == at[1] && tail[1] == at[2]);
                assert(starts_with_backticks(tail, 2));
                lemma_broken_start(rest, 2);
                assert forall|j: int| 0 <= j < 5 implies #[trigger] s[j] == '`' by {
                    if j >= 3 {
                        assert(s[j] == rest[j - 3]);
                    }
                }
                assert(s.skip(0) =~= s);
                assert(starts_with_backticks(s.skip(0), 5));
            } else {
                assert(broken[2] == at[2 - i]);
            }
        } else {
            let rest = s.skip(1);
            lemma_rest_has_no_more_backticks(s, 1, 5);
            law_escaped_text_has_no_fence(rest);
            let tail = broken_fences(rest);
            assert(broken =~= seq![s[0]] + tail);
            if i >= 1 {
                assert(at =~= tail.skip(i - 1));
                assert(starts_with_backticks(tail.skip(i - 1), 3));
            } else {
                assert(at =~= broken);
                assert(tail[0] == at[1] && tail[1] == at[2]);
                assert(starts_with_backticks(tail, 2));
                lemma_broken_start(rest, 2);
                assert forall|j: int| 0 <= j < 3 implies #[trigger] s[j] == '`' by {
                    if j >= 1 {
                        assert(s[j] == rest[j - 1]);
                    }
                }
                assert(starts_with_backticks(s, 3));
            }
        }
    }
}

/// Text without a code fence stays as it is.
pub proof fn law_text_without_fence_is_kept(s: Seq<char>)
    requires
        !has_backticks(s, 3),
    ensures
        broken_fences(s) == s,
    decreases s.len(),
{
    if s.len() > 0 {
        assert(s.skip(0) =~= s);
        assert(!starts_with_backticks(s, 3));
        lemma_rest_has_no_more_backticks(s, 1, 3);
        law_text_without_fence_is_kept(s.skip(1));
        assert(seq![s[0]] + s.skip(1) =~= s);
    }
}

/// Whether `c` is one of the letters and digits of ASCII.
pub open spec fn is_ascii_alphanumeric(c: char) -> bool {
    'a' <= c <= 'z' || 'A' <= c <= 'Z' || '0' <= c <= '9'
}

/// What stands for `c` in a file name: a lower case letter, a digit or a dash.
pub open spec fn slug_char(c: char) -> char {
    if 'A' <= c <= 'Z' {
        (c as u32 + 32) as char
    } else if is_ascii_alphanumeric(c) {
        c
    } else {
        '-'
    }
}

/// `s` without the dashes at its end.
pub open spec fn without_last_dashes(s: Seq<char>) -> Seq<char>
    decreases s.len(),
{
    if s.len() > 0 && s.last() == '-' {
        without_last_dashes(s.drop_last())
    } else {
        s
    }
}

/// `s` without the dashes at its start.
pub open spec fn without_first_dashes(s: Seq<char>) -> Seq<char>
    decreases s.len(),
{
    if s.len() > 0 && s[0] == '-' {
        without_first_dashes(s.skip(1))
    } else {
        s
    }
}

/// What stands for the account `name` in file names.
pub open spec fn slug(name: Seq<char>) -> Seq<char> {
    let core = without_first_dashes(
        without_last_dashes(Seq::new(name.len(), |i: int| slug_char(name[i]))),
    );
    if core.len() == 0 {
        "account"@
    } else {
        core
    }
}

/// What stands for the account `account_name` in file names.
pub fn filename_slug(account_name: &str) -> (r: String)
    ensures
        r@ == slug(account_name@),
{
    let chars = chars_of(account_name);
    let mut mapped: Vec<char> = Vec::new();
    let mut i: usize = 0;
    while i < chars.len()
        invariant
            i <= chars.len(),
            mapped@ =~= Seq::new(i as nat, |j: int| slug_char(chars@[j])),
        decreases chars.len() - i,
    {
        let c = chars[i];
        if 'A' <= c && c <= 'Z' {
            let lower: u8 = c as u8 + 32;
            mapped.push(lower as char);
        } else if ('a' <= c && c <= 'z') || ('0' <= c && c <= '9') {
            mapped.push(c);
        } else {
            mapped.push('-');
        }
        i = i + 1;
    }
    let ghost all = Seq::new(account_name@.len(), |j: int| slug_char(account_name@[j]));
    assert(mapped@ =~= all);
    let mut end: usize = mapped.len();
    assert(all.take(end as int) =~= all);
    while end > 0 && mapped[end - 1] == '-'
        invariant
            end <= mapped.len(),
            mapped@ == all,
            without_last_dashes(all) == without_last_dashes(all.take(end as int)),
        decreases end,
    {
        assert(all.take(end as int).drop_last() =~= all.take(end - 1));
        end = end - 1;
    }
    let ghost left = all.take(end as int);
    assert(without_last_dashes(all) == left);
    assert(left.skip(0) =~= left);
    let mut start: usize = 0;
    while start < end && mapped[start] == '-'
        invariant
            start <= end <= mapped.len(),
            mapped@ == all,
            left == all.take(end as int),
            without_first_dashes(left) == without_first_dashes(left.skip(start as int)),
        decreases end - start,
    {
        assert(left.skip(start as int).skip(1) =~= left.skip(start + 1));
        start = start + 1;
    }
    assert(all.subrange(start as int, end as int) =~= left.skip(start as int));
    if start == end {
        "account".to_owned()
    } else {
        text_of(copy_range(mapped.as_slice(), start, end).as_slice())
    }
}

/// Whether `c` may stand in a slug.
pub open spec fn fits_a_file_name(c: char) -> bool {
    'a' <= c <= 'z' || '0' <= c <= '9' || c == '-'
}

proof fn lemma_dashes_off(s: Seq<char>)
    requires
        forall|i: int| 0 <= i < s.len() ==> fits_a_file_name(#[trigger] s[i]),
    ensures
        ({
            let left = without_last_dashes(s);
            &&& forall|i: int| 0 <= i < left.len() ==> fits_a_file_name(#[trigger] left[i])
            &&& left.len() > 0 ==> left.last() != '-'
        }),
    decreases s.len(),
{
    if s.len() > 0 && s.last() == '-' {
        lemma_dashes_off(s.drop_last());
    }
}

proof fn lemma_first_dashes_off(s: Seq<char>)
    requires
        forall|i: int| 0 <= i < s.len() ==> fits_a_file_name(#[trigger] s[i]),
        s.len() > 0 ==> s.last() != '-',
    ensures
        ({
            let left = without_first_dashes(s);
            &&& forall|i: int| 0 <= i < left.len() ==> fits_a_file_name(#[trigger] left[i])
            &&& left.len() > 0 ==> left[0] != '-' && left.last() != '-'
        }),
    decreases s.len(),
{
    if s.len() > 0 && s[0] == '-' {
        lemma_first_dashes_off(s.skip(1));
    }
}

/// A slug is not empty, holds nothing but lower case letters, digits and dashes, and neither
/// starts nor ends with a dash.
pub proof fn law_slugs_are_file_names(name: Seq<char>)
    ensures
        slug(name).len() > 0,
        forall|i: int| 0 <= i < slug(name).len() ==> fits_a_file_name(#[trigger] slug(name)[i]),
        slug(name)[0] != '-',
        slug(name).last() != '-',
{
    reveal_strlit("account");
    let mapped = Seq::new(name.len(), |i: int| slug_char(name[i]));
    lemma_dashes_off(mapped);
    lemma_first_dashes_off(without_last_dashes(mapped));
}

/// Texts are escaped character by character: a backslash and an asterisk get a backslash before them,
/// and every other character stays as it is.
pub proof fn law_escaping_markdown(before: Seq<char>, c: char, behind: Seq<char>)
    ensures
        markdown(Seq::<char>::empty()).len() == 0,
        c == '\\' || c == '*' ==> markdown(before + seq![c] + behind) == markdown(before) + seq!['\\', c]
            + markdown(behind),
        c != '\\' && c != '*' ==> markdown(before + seq![c] + behind) == markdown(before) + seq![c]
            + markdown(behind),
{
    lemma_markdown_concat(before + seq![c], behind);
    lemma_markdown_concat(before, seq![c]);
    let one = seq![c];
    let none = one.skip(1);
    assert(none.len() == 0);
    assert(markdown(none) =~= Seq::<char>::empty());
    assert(markdown(one) == markdown_char(one[0]) + markdown(none));
    assert(markdown(one) =~= markdown_char(c));
}

/// What is written for a text where Markdown is read is the escaped text.
pub proof fn law_markdown_is_escaped(text: &str, escaped: String)
    requires
        call_ensures(escape_markdown, (text,), escaped),
    ensures
        escaped@ == markdown(text@),
{
}

/// The first code fence of a text is broken up by an invisible space behind its second backtick, and
/// so are those behind it. What stands before it stays as it is.
pub proof fn law_breaking_code_fences(
    all: Seq<char>,
    before: Seq<char>,
    fence: Seq<char>,
    behind: Seq<char>,
)
    requires
        fence == seq!['`', '`', '`'],
        all == before + fence + behind,
        forall|i: int| 0 <= i < before.len() ==> !#[trigger] crate::text::occurs_at(all, fence, i),
    ensures
        broken_fences(all) == before + seq!['`', '`', '\u{200b}', '`'] + broken_fences(behind),
    decreases before.len(),
{
    if before.len() == 0 {
        assert(all[0] == '`' && all[1] == '`' && all[2] == '`');
        assert(starts_with_backticks(all, 3));
        assert(all.skip(3) =~= behind);
        assert(broken_fences(all) =~= before + seq!['`', '`', '\u{200b}', '`'] + broken_fences(
            behind,
        ));
    } else {
        let rest = before.skip(1) + fence + behind;
        assert(all.skip(1) =~= rest);
        assert(!crate::text::occurs_at(all, fence, 0));
        if starts_with_backticks(all, 3) {
            assert(all[0] == '`' && all[1] == '`' && all[2] == '`');
            assert(all.subrange(0, 3) =~= fence);
        }
        assert forall|i: int| 0 <= i < before.len() - 1 implies !#[trigger] crate::text::occurs_at(
            rest,
            fence,
            i,
        ) by {
            assert(!crate::text::occurs_at(all, fence, i + 1));
            assert(rest.subrange(i, i + 3) =~= all.subrange(i + 1, i + 4));
        }
        law_breaking_code_fences(rest, before.skip(1), fence, behind);
        assert(broken_fences(all) =~= before + seq!['`', '`', '\u{200b}', '`'] + broken_fences(
            behind,
        ));
    }
}

/// What is written for a text inside a code block is the text with its code fences broken up.
pub proof fn law_code_fences_are_broken(text: &str, broken: String)
    requires
        call_ensures(escape_code_fence, (text,), broken),
    ensures
        broken@ == broken_fences(text@),
{
}

/// Whether `written` is what stands for `c` in a file name.
pub open spec fn is_written_in_file_names(c: char, written: char) -> bool {
    &&& 'A' <= c <= 'Z' ==> written as int == c as int + ('a' as int - 'A' as int)
    &&& 'a' <= c <= 'z' || '0' <= c <= '9' ==> written == c
    &&& !('A' <= c <= 'Z') && !('a' <= c <= 'z') && !('0' <= c <= '9') ==> written == '-'
}

proof fn lemma_last_dashes(s: Seq<char>) -> (n: int)
    ensures
        0 <= n <= s.len(),
        without_last_dashes(s) == s.take(n),
        forall|i: int| n <= i < s.len() ==> #[trigger] s[i] == '-',
    decreases s.len(),
{
    if s.len() > 0 && s.last() == '-' {
        let n = lemma_last_dashes(s.drop_last());
        assert(s.drop_last().take(n) =~= s.take(n));
        assert forall|i: int| n <= i < s.len() implies #[trigger] s[i] == '-' by {
            if i < s.len() - 1 {
                assert(s[i] == s.drop_last()[i]);
            }
        }
        n
    } else {
        assert(s.take(s.len() as int) =~= s);
        s.len() as int
    }
}

proof fn lemma_first_dashes(s: Seq<char>) -> (n: int)
    ensures
        0 <= n <= s.len(),
        without_first_dashes(s) == s.skip(n),
        forall|i: int| 0 <= i < n ==> #[trigger] s[i] == '-',
    decreases s.len(),
{
    if s.len() > 0 && s[0] == '-' {
        let n = lemma_first_dashes(s.skip(1));
        assert(s.skip(1).skip(n) =~= s.skip(n + 1));
        assert forall|i: int| 0 <= i < n + 1 implies #[trigger] s[i] == '-' by {
            if i > 0 {
                assert(s[i] == s.skip(1)[i - 1]);
            }
        }
        n + 1
    } else {
        assert(s.skip(0) =~= s);
        0
    }
}

/// The name of a file is that of the account, character by character: letters in lower case, digits,
/// and dashes for all else. It starts with the first letter or digit of the name and ends with the
/// last one. A name without any stands for `account`.
pub proof fn law_files_are_named_after_the_account(name: &str, slugged: String) -> (start: int)
    requires
        call_ensures(filename_slug, (name,), slugged),
    ensures
        (forall|i: int|
            0 <= i < name@.len() ==> is_written_in_file_names(#[trigger] name@[i], '-'))
            ==> slugged@ == "account"@,
        (exists|i: int|
            0 <= i < name@.len() && !is_written_in_file_names(#[trigger] name@[i], '-')) ==> {
            &&& 0 <= start < start + slugged@.len() <= name@.len()
            &&& forall|i: int|
                0 <= i < slugged@.len() ==> is_written_in_file_names(
                    name@[start + i],
                    #[trigger] slugged@[i],
                )
            &&& slugged@[0] != '-'
            &&& slugged@.last() != '-'
            &&& forall|i: int|
                0 <= i < start || start + slugged@.len() <= i < name@.len()
                    ==> is_written_in_file_names(#[trigger] name@[i], '-')
        },
{
    let mapped = Seq::new(name@.len(), |i: int| slug_char(name@[i]));
    assert forall|i: int| 0 <= i < name@.len() implies is_written_in_file_names(
        #[trigger] name@[i],
        mapped[i],
    ) && (is_written_in_file_names(name@[i], '-') <==> mapped[i] == '-') by {}
    let n = lemma_last_dashes(mapped);
    let left = without_last_dashes(mapped);
    let start = lemma_first_dashes(left);
    let core = without_first_dashes(left);
    law_slugs_are_file_names(name@);
    assert(core =~= mapped.subrange(start, n));
    assert forall|i: int| 0 <= i < start implies mapped[i] == '-' by {
        assert(left[i] == '-');
    }
    if core.len() > 0 {
        assert(slugged@ == core);
        assert forall|i: int| 0 <= i < slugged@.len() implies is_written_in_file_names(
            name@[start + i],
            #[trigger] slugged@[i],
        ) by {
            assert(slugged@[i] == mapped[start + i]);
        }
        assert(mapped[start] == slugged@[0]);
        assert(!is_written_in_file_names(name@[start], '-'));
        assert forall|i: int|
            0 <= i < start || start + slugged@.len() <= i < name@.len() implies
            is_written_in_file_names(#[trigger] name@[i], '-') by {
            assert(mapped[i] == '-');
        }
    } else {
        assert forall|i: int| 0 <= i < name@.len() implies is_written_in_file_names(
            #[trigger] name@[i],
            '-',
        ) by {
            assert(mapped[i] == '-');
        }
    }
    start
}

} // verus!
