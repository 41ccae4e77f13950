//! Text as sequences of characters: lines, searching, trimming and decimal numbers.

use vstd::prelude::*;

verus! {

/// `String::push` appends one character.
pub assume_specification[ String::push ](s: &mut String, c: char)
    ensures
        final(s)@ == old(s)@.push(c),
;

/// The contents of a list of character vectors.
pub open spec fn views(rows: Seq<Vec<char>>) -> Seq<Seq<char>> {
    Seq::new(rows.len(), |i: int| rows[i]@)
}

/// The contents of a list of strings.
pub open spec fn texts(rows: Seq<String>) -> Seq<Seq<char>> {
    Seq::new(rows.len(), |i: int| rows[i]@)
}

/// The index of the first `c` in `s`, or the length of `s` where there is none.
pub open spec fn first_index(s: Seq<char>, c: char) -> nat
    decreases s.len(),
{
    if s.len() == 0 || s[0] == c {
        0
    } else {
        1 + first_index(s.skip(1), c)
    }
}

pub proof fn lemma_first_index(s: Seq<char>, c: char)
    ensures
        first_index(s, c) <= s.len(),
        forall|j: int| 0 <= j < first_index(s, c) ==> s[j] != c,
        first_index(s, c) < s.len() ==> s[first_index(s, c) as int] == c,
    decreases s.len(),
{
    if s.len() > 0 && s[0] != c {
        let rest = s.skip(1);
        lemma_first_index(rest, c);
        assert forall|j: int| 0 <= j < first_index(s, c) implies s[j] != c by {
            if j > 0 {
                assert(s[j] == rest[j - 1]);
            }
        }
    }
}

pub proof fn lemma_first_index_is(s: Seq<char>, c: char, n: int)
    requires
        0 <= n <= s.len(),
        forall|j: int| 0 <= j < n ==> s[j] != c,
        n < s.len() ==> s[n] == c,
    ensures
        first_index(s, c) == n,
{
    lemma_first_index(s, c);
    let m = first_index(s, c) as int;
    if m < n {
        assert(s[m] != c);
    }
    if n < m {
        assert(s[n] != c);
    }
}

/// `line` without one carriage return at its end.
pub open spec fn strip_return(line: Seq<char>) -> Seq<char> {
    if line.len() > 0 && line.last() == '\r' {
        line.drop_last()
    } else {
        line
    }
}

/// The lines of `s`. A line ends with a newline, or with a carriage return and a newline,
/// neither of which belongs to it. The last line may lack its ending.
pub open spec fn lines(s: Seq<char>) -> Seq<Seq<char>>
    decreases s.len(),
{
    let n = first_index(s, '\n') as int;
    if s.len() == 0 {
        Seq::empty()
    } else if n >= s.len() {
        seq![s]
    } else {
        seq![strip_return(s.take(n))] + lines(s.skip(n + 1))
    }
}

/// Whether `pattern` stands in `s` at index `i`.
pub open spec fn occurs_at(s: Seq<char>, pattern: Seq<char>, i: int) -> bool {
    0 <= i && i + pattern.len() <= s.len() && s.subrange(i, i + pattern.len()) == pattern
}

/// Whether `pattern` stands anywhere in `s`.
pub open spec fn contains(s: Seq<char>, pattern: Seq<char>) -> bool {
    exists|i: int| occurs_at(s, pattern, i)
}

/// The first index from `i` on at which `pattern` stands in `s`.
pub open spec fn find_from(s: Seq<char>, pattern: Seq<char>, i: int) -> Option<int>
    decreases s.len() - i,
{
    if i < 0 || i + pattern.len() > s.len() {
        None
    } else if occurs_at(s, pattern, i) {
        Some(i)
    } else if i == s.len() {
        None
    } else {
        find_from(s, pattern, i + 1)
    }
}

pub proof fn lemma_find_from(s: Seq<char>, pattern: Seq<char>, i: int)
    requires
        0 <= i,
    ensures
        match find_from(s, pattern, i) {
            Some(k) => i <= k && occurs_at(s, pattern, k) && forall|j: int|
                i <= j < k ==> !occurs_at(s, pattern, j),
            None => forall|j: int| i <= j ==> !occurs_at(s, pattern, j),
        },
    decreases s.len() - i,
{
    if i + pattern.len() <= s.len() && !occurs_at(s, pattern, i) && i < s.len() {
        lemma_find_from(s, pattern, i + 1);
    }
}

/// The first of `rows` that contains `pattern`.
pub open spec fn first_row_with(rows: Seq<Seq<char>>, pattern: Seq<char>) -> Option<Seq<char>>
    decreases rows.len(),
{
    if rows.len() == 0 {
        None
    } else if contains(rows[0], pattern) {
        Some(rows[0])
    } else {
        first_row_with(rows.skip(1), pattern)
    }
}

pub proof fn lemma_first_row_is(rows: Seq<Seq<char>>, pattern: Seq<char>, row: int)
    requires
        0 <= row < rows.len(),
        contains(rows[row], pattern),
        forall|k: int| 0 <= k < row ==> !contains(#[trigger] rows[k], pattern),
    ensures
        first_row_with(rows, pattern) == Some(rows[row]),
    decreases row,
{
    if row > 0 {
        let rest = rows.skip(1);
        assert(!contains(rows[0], pattern));
        assert forall|k: int| 0 <= k < row - 1 implies !contains(#[trigger] rest[k], pattern) by {
            assert(rest[k] == rows[k + 1]);
        }
        lemma_first_row_is(rest, pattern, row - 1);
    }
}

pub proof fn lemma_no_row_has(rows: Seq<Seq<char>>, pattern: Seq<char>)
    requires
        forall|k: int| 0 <= k < rows.len() ==> !contains(#[trigger] rows[k], pattern),
    ensures
        first_row_with(rows, pattern) is None,
    decreases rows.len(),
{
    if rows.len() > 0 {
        let rest = rows.skip(1);
        assert forall|k: int| 0 <= k < rest.len() implies !contains(#[trigger] rest[k], pattern) by {
            assert(rest[k] == rows[k + 1]);
        }
        lemma_no_row_has(rest, pattern);
    }
}

/// Whether `c` has the Unicode property White_Space.
pub open spec fn is_white_space(c: char) -> bool {
    let n = c as int;
    ||| 0x09 <= n <= 0x0d
    ||| n == 0x20
    ||| n == 0x85
    ||| n == 0xa0
    ||| n == 0x1680
    ||| 0x2000 <= n <= 0x200a
    ||| n == 0x2028
    ||| n == 0x2029
    ||| n == 0x202f
    ||| n == 0x205f
    ||| n == 0x3000
}

/// `s` without the white space at its end.
pub open spec fn trim_end(s: Seq<char>) -> Seq<char>
    decreases s.len(),
{
    if s.len() > 0 && is_white_space(s.last()) {
        trim_end(s.drop_last())
    } else {
        s
    }
}

/// `s` without the white space at its start.
pub open spec fn trim_start(s: Seq<char>) -> Seq<char>
    decreases s.len(),
{
    if s.len() > 0 && is_white_space(s[0]) {
        trim_start(s.skip(1))
    } else {
        s
    }
}

/// `s` without the white space at both ends.
pub open spec fn trim(s: Seq<char>) -> Seq<char> {
    trim_start(trim_end(s))
}

/// `parts`, with `separator` between each and the next.
pub open spec fn join(parts: Seq<Seq<char>>, separator: Seq<char>) -> Seq<char>
    decreases parts.len(),
{
    if parts.len() == 0 {
        Seq::empty()
    } else if parts.len() == 1 {
        parts[0]
    } else {
        join(parts.drop_last(), separator) + separator + parts.last()
    }
}

pub proof fn lemma_join_front(parts: Seq<Seq<char>>, separator: Seq<char>)
    requires
        parts.len() > 1,
    ensures
        join(parts, separator) == parts[0] + separator + join(parts.skip(1), separator),
    decreases parts.len(),
{
    if parts.len() == 2 {
        assert(join(parts.drop_last(), separator) == parts[0]);
        assert(join(parts.skip(1), separator) == parts[1]);
    } else {
        let init = parts.drop_last();
        lemma_join_front(init, separator);
        assert(init.skip(1) == parts.skip(1).drop_last());
        assert(join(parts, separator) == parts[0] + separator + join(
            parts.skip(1),
            separator,
        ));
    }
}

/// Trimming takes nothing but white space, from the end.
pub proof fn lemma_trim_end(s: Seq<char>)
    ensures
        trim_end(s).len() <= s.len(),
        trim_end(s) == s.take(trim_end(s).len() as int),
        trim_end(s).len() > 0 ==> !is_white_space(trim_end(s).last()),
        forall|i: int| trim_end(s).len() <= i < s.len() ==> is_white_space(#[trigger] s[i]),
    decreases s.len(),
{
    if s.len() > 0 && is_white_space(s.last()) {
        let shorter = s.drop_last();
        lemma_trim_end(shorter);
        assert(trim_end(s) == s.take(trim_end(s).len() as int));
        assert forall|i: int| trim_end(s).len() <= i < s.len() implies is_white_space(
            #[trigger] s[i],
        ) by {
            if i < s.len() - 1 {
                assert(shorter[i] == s[i]);
            }
        }
    } else {
        assert(s == s.take(s.len() as int));
    }
}

/// Whether no newline stands in `row`.
pub open spec fn is_one_line(row: Seq<char>) -> bool {
    forall|i: int| 0 <= i < row.len() ==> #[trigger] row[i] != '\n'
}

/// No newline stands in a line.
pub proof fn lemma_lines_are_lines(s: Seq<char>, i: int)
    requires
        0 <= i < lines(s).len(),
    ensures
        is_one_line(lines(s)[i]),
    decreases s.len(),
{
    let n = first_index(s, '\n') as int;
    lemma_first_index(s, '\n');
    if s.len() > 0 && n < s.len() {
        let rest = lines(s.skip(n + 1));
        if i > 0 {
            lemma_lines_are_lines(s.skip(n + 1), i - 1);
            assert(lines(s)[i] == rest[i - 1]);
        } else {
            let line = strip_return(s.take(n));
            assert(lines(s)[0] == line);
            assert forall|j: int| 0 <= j < line.len() implies #[trigger] line[j] != '\n' by {
                assert(line[j] == s[j]);
            }
        }
    }
}

/// Rows that were joined by newlines are the lines of the text, where no row ends with a
/// carriage return and the last one is not empty.
pub proof fn lemma_lines_of_join(rows: Seq<Seq<char>>)
    requires
        rows.len() > 0,
        rows.last().len() > 0,
        forall|i: int|
            0 <= i < rows.len() ==> is_one_line(#[trigger] rows[i]) && (rows[i].len() > 0
                ==> rows[i].last() != '\r'),
    ensures
        lines(join(rows, seq!['\n'])) == rows,
    decreases rows.len(),
{
    let all = join(rows, seq!['\n']);
    let first = rows[0];
    assert(is_one_line(first));
    if rows.len() == 1 {
        lemma_first_index_is(first, '\n', first.len() as int);
        assert(rows == seq![first]);
    } else {
        let rest = rows.skip(1);
        lemma_join_front(rows, seq!['\n']);
        assert forall|i: int| 0 <= i < rest.len() implies is_one_line(#[trigger] rest[i]) && (
        rest[i].len() > 0 ==> rest[i].last() != '\r') by {
            assert(rest[i] == rows[i + 1]);
        }
        lemma_lines_of_join(rest);
        let n = first.len() as int;
        assert forall|j: int| 0 <= j < n implies all[j] != '\n' by {
            assert(all[j] == first[j]);
        }
        lemma_first_index_is(all, '\n', n);
        assert(all.take(n) == first);
        assert(all.skip(n + 1) == join(rest, seq!['\n']));
        assert(rows == seq![first] + rest);
    }
}

/// The pieces of `s` between its newlines, each without one carriage return at its end.
pub open spec fn pieces(s: Seq<char>) -> Seq<Seq<char>>
    decreases s.len(),
{
    let n = first_index(s, '\n') as int;
    if n >= s.len() {
        seq![strip_return(s)]
    } else {
        seq![strip_return(s.take(n))] + pieces(s.skip(n + 1))
    }
}

/// The pieces of a text without a newline.
pub proof fn lemma_one_piece(s: Seq<char>)
    requires
        is_one_line(s),
    ensures
        pieces(s) == seq![strip_return(s)],
{
    lemma_first_index_is(s, '\n', s.len() as int);
}

/// The pieces of two texts with a newline between them.
pub proof fn lemma_pieces_around(a: Seq<char>, b: Seq<char>)
    ensures
        pieces(a + seq!['\n'] + b) == pieces(a) + pieces(b),
    decreases a.len(),
{
    let all = a + seq!['\n'] + b;
    let n = first_index(a, '\n') as int;
    lemma_first_index(a, '\n');
    assert forall|j: int| 0 <= j < n implies all[j] != '\n' by {
        assert(all[j] == a[j]);
    }
    assert(all[n] == '\n');
    lemma_first_index_is(all, '\n', n);
    assert(all.take(n) == a.take(n));
    if n >= a.len() {
        assert(a.take(n) == a);
        assert(all.skip(n + 1) == b);
    } else {
        let rest = a.skip(n + 1);
        assert(all.skip(n + 1) == rest + seq!['\n'] + b);
        lemma_pieces_around(rest, b);
        assert(pieces(all) == pieces(a) + pieces(b));
    }
}

/// Text before the first newline stands in the first piece.
pub proof fn lemma_pieces_behind(start: Seq<char>, s: Seq<char>)
    requires
        is_one_line(start),
        start.len() > 0,
        start.last() != '\r',
    ensures
        pieces(s).len() > 0,
        pieces(start + s) == pieces(s).update(0, start + pieces(s)[0]),
{
    let all = start + s;
    let n = first_index(s, '\n') as int;
    lemma_first_index(s, '\n');
    assert forall|j: int| 0 <= j < start.len() + n implies all[j] != '\n' by {
        if j < start.len() {
            assert(all[j] == start[j]);
        } else {
            assert(all[j] == s[j - start.len()]);
        }
    }
    lemma_first_index_is(all, '\n', start.len() + n);
    if n >= s.len() {
        assert(strip_return(all) == start + strip_return(s)) by {
            if s.len() > 0 {
                assert(all.last() == s.last());
                assert(all.drop_last() == start + s.drop_last());
            } else {
                assert(all == start);
                assert(strip_return(s) == s);
                assert(start + s == start);
            }
        }
    } else {
        let piece = s.take(n);
        assert(all.take(start.len() + n) == start + piece);
        assert(all.skip(start.len() + n + 1) == s.skip(n + 1));
        assert(strip_return(start + piece) == start + strip_return(piece)) by {
            if n > 0 {
                assert((start + piece).last() == piece.last());
                assert((start + piece).drop_last() == start + piece.drop_last());
            } else {
                assert(start + piece == start);
                assert(strip_return(piece) == piece);
            }
        }
    }
    assert(pieces(all) == pieces(s).update(0, start + pieces(s)[0]));
}

/// The lines of a text that ends neither with a newline nor with a carriage return are its
/// pieces.
pub proof fn lemma_lines_are_pieces(s: Seq<char>)
    requires
        s.len() > 0,
        s.last() != '\n',
        s.last() != '\r',
    ensures
        lines(s) == pieces(s),
    decreases s.len(),
{
    let n = first_index(s, '\n') as int;
    lemma_first_index(s, '\n');
    if n < s.len() {
        assert(n < s.len() - 1);
        assert(s.skip(n + 1).last() == s.last());
        lemma_lines_are_pieces(s.skip(n + 1));
    }
}

/// `parts` and `more`, joined.
pub proof fn lemma_join_concat(parts: Seq<Seq<char>>, more: Seq<Seq<char>>, separator: Seq<char>)
    requires
        parts.len() > 0,
        more.len() > 0,
    ensures
        join(parts + more, separator) == join(parts, separator) + separator + join(more, separator),
    decreases more.len(),
{
    let all = parts + more;
    if more.len() == 1 {
        assert(all.drop_last() == parts);
    } else {
        lemma_join_concat(parts, more.drop_last(), separator);
        assert(all.drop_last() == parts + more.drop_last());
        assert(join(all, separator) == join(parts, separator) + separator + join(more, separator));
    }
}

/// The rows of a text without carriage returns make up the text.
pub proof fn lemma_pieces_join(s: Seq<char>)
    requires
        forall|i: int| 0 <= i < s.len() ==> #[trigger] s[i] != '\r',
    ensures
        pieces(s).len() > 0,
        join(pieces(s), seq!['\n']) == s,
    decreases s.len(),
{
    let n = first_index(s, '\n') as int;
    lemma_first_index(s, '\n');
    if n < s.len() {
        let rest = s.skip(n + 1);
        let first = s.take(n);
        assert(strip_return(first) == first);
        assert forall|i: int| 0 <= i < rest.len() implies #[trigger] rest[i] != '\r' by {
            assert(rest[i] == s[i + n + 1]);
        }
        lemma_pieces_join(rest);
        lemma_join_concat(seq![first], pieces(rest), seq!['\n']);
        assert(join(seq![first], seq!['\n']) == first);
        assert(first + seq!['\n'] + rest == s);
    } else {
        assert(strip_return(s) == s);
    }
}

/// Joined rows are no longer than the text that they come from.
pub proof fn lemma_pieces_are_short(s: Seq<char>)
    ensures
        pieces(s).len() > 0,
        join(pieces(s), seq!['\n']).len() <= s.len(),
    decreases s.len(),
{
    let n = first_index(s, '\n') as int;
    lemma_first_index(s, '\n');
    if n < s.len() {
        let rest = s.skip(n + 1);
        let first = strip_return(s.take(n));
        lemma_pieces_are_short(rest);
        lemma_join_concat(seq![first], pieces(rest), seq!['\n']);
        assert(join(seq![first], seq!['\n']) == first);
    }
}

/// The digit that stands for `n`, a number below ten.
pub open spec fn digit(n: nat) -> char {
    (0x30 + n) as char
}

/// The decimal notation of `n`, without leading zeros.
pub open spec fn decimal(n: nat) -> Seq<char>
    decreases n,
{
    if n < 10 {
        seq![digit(n)]
    } else {
        decimal(n / 10).push(digit(n % 10))
    }
}

/// The decimal notation of `n`, with a minus sign where it is negative.
pub open spec fn signed_decimal(n: int) -> Seq<char> {
    if n < 0 {
        seq!['-'] + decimal((-n) as nat)
    } else {
        decimal(n as nat)
    }
}

/// Whether `c` is one of the digits from `0` to `9`.
pub open spec fn is_digit(c: char) -> bool {
    '0' <= c <= '9'
}

/// The number that a sequence of digits denotes; zero for the empty one.
pub open spec fn decimal_value(digits: Seq<char>) -> nat
    decreases digits.len(),
{
    if digits.len() == 0 {
        0
    } else {
        decimal_value(digits.drop_last()) * 10 + (digits.last() as nat - 0x30) as nat
    }
}

/// The characters of `s`.
pub fn chars_of(s: &str) -> (r: Vec<char>)
    ensures
        r@ == s@,
{
    let mut out: Vec<char> = Vec::new();
    for c in it: s.chars()
        invariant
            it.seq() == s@,
            out@ == s@.take(it.index() as int),
    {
        out.push(c);
    }
    out
}

/// The string made of `chars`.
pub fn text_of(chars: &[char]) -> (r: String)
    ensures
        r@ == chars@,
{
    let mut out = String::new();
    let mut i: usize = 0;
    while i < chars.len()
        invariant
            i <= chars.len(),
            out@ == chars@.take(i as int),
        decreases chars.len() - i,
    {
        out.push(chars[i]);
        i = i + 1;
    }
    out
}

/// The characters of `chars` from index `from` up to index `to`.
pub fn copy_range(chars: &[char], from: usize, to: usize) -> (r: Vec<char>)
    requires
        from <= to <= chars.len(),
    ensures
        r@ == chars@.subrange(from as int, to as int),
{
    let mut out: Vec<char> = Vec::new();
    let mut i: usize = from;
    while i < to
        invariant
            from <= i <= to <= chars.len(),
            out@ == chars@.subrange(from as int, i as int),
        decreases to - i,
    {
        out.push(chars[i]);
        i = i + 1;
    }
    out
}

/// The index of the first `c` in `chars`, or their number where there is none.
pub fn index_of(chars: &[char], c: char) -> (r: usize)
    ensures
        r == first_index(chars@, c),
{
    let mut i: usize = 0;
    while i < chars.len()
        invariant
            i <= chars.len(),
            forall|j: int| 0 <= j < i ==> chars@[j] != c,
        decreases chars.len() - i,
    {
        if chars[i] == c {
            proof {
                lemma_first_index_is(chars@, c, i as int);
            }
            return i;
        }
        i = i + 1;
    }
    proof {
        lemma_first_index_is(chars@, c, i as int);
    }
    i
}

/// The lines of `chars`.
pub fn lines_of(chars: &[char]) -> (r: Vec<Vec<char>>)
    ensures
        views(r@) == lines(chars@),
{
    let mut out: Vec<Vec<char>> = Vec::new();
    let mut start: usize = 0;
    assert(chars@.skip(0) == chars@);
    assert(views(out@) + lines(chars@) == lines(chars@));
    while start < chars.len()
        invariant
            start <= chars.len(),
            views(out@) + lines(chars@.skip(start as int)) == lines(chars@),
        decreases chars.len() - start,
    {
        let ghost rest = chars@.skip(start as int);
        let ghost before = out@;
        let mut end: usize = start;
        while end < chars.len() && chars[end] != '\n'
            invariant
                start <= end <= chars.len(),
                rest == chars@.skip(start as int),
                forall|j: int| 0 <= j < end - start ==> rest[j] != '\n',
            decreases chars.len() - end,
        {
            assert(rest[end - start] == chars@[end as int]);
            end = end + 1;
        }
        proof {
            if end < chars.len() {
                assert(rest[end - start] == chars@[end as int]);
            }
            lemma_first_index_is(rest, '\n', end - start);
        }
        if end >= chars.len() {
            let line = copy_range(chars, start, end);
            assert(line@ == rest);
            out.push(line);
            proof {
                assert(lines(rest) == seq![rest]);
                assert(views(out@) == views(before) + seq![rest]);
                assert(lines(chars@.skip(end as int)) == Seq::<Seq<char>>::empty());
                assert(views(out@) + lines(chars@.skip(end as int)) == views(out@));
            }
            start = end;
        } else {
            let mut stop: usize = end;
            if end > start && chars[end - 1] == '\r' {
                stop = end - 1;
            }
            let line = copy_range(chars, start, stop);
            proof {
                let whole = rest.take(end - start);
                if end > start {
                    assert(whole.last() == chars@[end - 1]);
                }
                assert(line@ == strip_return(whole));
            }
            out.push(line);
            proof {
                let whole = rest.take(end - start);
                let tail = rest.skip(end - start + 1);
                assert(tail == chars@.skip(end + 1));
                assert(lines(rest) == seq![strip_return(whole)] + lines(tail));
                assert(views(out@) == views(before).push(strip_return(whole)));
                assert(views(before) + (seq![strip_return(whole)] + lines(tail)) == views(out@)
                    + lines(tail));
            }
            start = end + 1;
        }
    }
    proof {
        assert(lines(chars@.skip(start as int)) == Seq::<Seq<char>>::empty());
        assert(views(out@) + Seq::<Seq<char>>::empty() == views(out@));
    }
    out
}

/// Whether `pattern` stands in `chars` at index `at`.
pub fn stands_at(chars: &[char], pattern: &[char], at: usize) -> (r: bool)
    ensures
        r == occurs_at(chars@, pattern@, at as int),
{
    if at > chars.len() || pattern.len() > chars.len() - at {
        return false;
    }
    let mut i: usize = 0;
    while i < pattern.len()
        invariant
            i <= pattern.len(),
            at + pattern.len() <= chars.len(),
            forall|j: int| 0 <= j < i ==> chars@[at + j] == pattern@[j],
        decreases pattern.len() - i,
    {
        if chars[at + i] != pattern[i] {
            proof {
                let part = chars@.subrange(at as int, at + pattern@.len());
                assert(part[i as int] != pattern@[i as int]);
            }
            return false;
        }
        i = i + 1;
    }
    assert(chars@.subrange(at as int, at + pattern@.len()) == pattern@);
    true
}

/// The first index at which `pattern` stands in `chars`.
pub fn find(chars: &[char], pattern: &[char]) -> (r: Option<usize>)
    ensures
        r is Some == contains(chars@, pattern@),
        match r {
            Some(k) => find_from(chars@, pattern@, 0) == Some(k as int),
            None => find_from(chars@, pattern@, 0) is None,
        },
{
    proof {
        lemma_find_from(chars@, pattern@, 0);
    }
    let mut i: usize = 0;
    while i < chars.len()
        invariant
            i <= chars.len(),
            find_from(chars@, pattern@, 0) == find_from(chars@, pattern@, i as int) || i
                + pattern@.len() > chars@.len(),
            forall|j: int| 0 <= j < i ==> !occurs_at(chars@, pattern@, j),
        decreases chars.len() - i,
    {
        if stands_at(chars, pattern, i) {
            return Some(i);
        }
        i = i + 1;
    }
    if stands_at(chars, pattern, i) {
        return Some(i);
    }
    proof {
        assert forall|j: int| !occurs_at(chars@, pattern@, j) by {}
        lemma_find_from(chars@, pattern@, 0);
    }
    None
}

/// Whether the string `s` contains `pattern`.
pub fn contains_text(s: &str, pattern: &str) -> (r: bool)
    ensures
        r == contains(s@, pattern@),
{
    find(chars_of(s).as_slice(), chars_of(pattern).as_slice()).is_some()
}

/// The index of the first of `rows` that contains `pattern`.
pub fn find_row(rows: &Vec<Vec<char>>, pattern: &[char]) -> (r: Option<usize>)
    ensures
        match r {
            Some(k) => k < rows.len() && first_row_with(views(rows@), pattern@) == Some(
                rows@[k as int]@,
            ),
            None => first_row_with(views(rows@), pattern@) is None,
        },
{
    let ghost all = views(rows@);
    let mut i: usize = 0;
    assert(all.skip(0) == all);
    while i < rows.len()
        invariant
            i <= rows.len(),
            all == views(rows@),
            first_row_with(all, pattern@) == first_row_with(all.skip(i as int), pattern@),
        decreases rows.len() - i,
    {
        assert(all.skip(i as int)[0] == rows@[i as int]@);
        if find(rows[i].as_slice(), pattern).is_some() {
            return Some(i);
        }
        assert(all.skip(i as int).skip(1) == all.skip(i + 1));
        i = i + 1;
    }
    None
}

/// Whether `c` is white space.
pub fn white_space(c: char) -> (r: bool)
    ensures
        r == is_white_space(c),
{
    let n: u32 = c as u32;
    (0x09 <= n && n <= 0x0d) || n == 0x20 || n == 0x85 || n == 0xa0 || n == 0x1680 || (0x2000 <= n
        && n <= 0x200a) || n == 0x2028 || n == 0x2029 || n == 0x202f || n == 0x205f || n == 0x3000
}

/// `chars` without the white space at their end.
pub fn trimmed_end(chars: &[char]) -> (r: Vec<char>)
    ensures
        r@ == trim_end(chars@),
{
    let mut end: usize = chars.len();
    assert(chars@.take(end as int) == chars@);
    while end > 0 && white_space(chars[end - 1])
        invariant
            end <= chars.len(),
            trim_end(chars@) == trim_end(chars@.take(end as int)),
        decreases end,
    {
        assert(chars@.take(end as int).drop_last() == chars@.take(end - 1));
        end = end - 1;
    }
    copy_range(chars, 0, end)
}

/// `chars` without the white space at both ends.
pub fn trimmed(chars: &[char]) -> (r: Vec<char>)
    ensures
        r@ == trim(chars@),
{
    let left = trimmed_end(chars);
    let mut start: usize = 0;
    assert(left@.skip(0) == left@);
    while start < left.len() && white_space(left[start])
        invariant
            start <= left.len(),
            trim_start(left@) == trim_start(left@.skip(start as int)),
        decreases left.len() - start,
    {
        assert(left@.skip(start as int).skip(1) == left@.skip(start + 1));
        start = start + 1;
    }
    let out = copy_range(left.as_slice(), start, left.len());
    assert(out@ == left@.skip(start as int));
    out
}

/// Appends the decimal notation of `n` to `out`.
pub fn push_decimal(out: &mut String, n: u128)
    ensures
        final(out)@ == old(out)@ + decimal(n as nat),
    decreases n,
{
    let d: u8 = (n % 10) as u8;
    if n >= 10 {
        push_decimal(out, n / 10);
    }
    out.push((0x30 + d) as char);
    assert(out@ == old(out)@ + decimal(n as nat));
}

/// Appends the decimal notation of `n`, with its sign, to `out`.
pub fn push_signed_decimal(out: &mut String, n: i32)
    ensures
        final(out)@ == old(out)@ + signed_decimal(n as int),
{
    if n < 0 {
        out.push('-');
        push_decimal(out, (-(n as i64)) as u128);
    } else {
        push_decimal(out, n as u128);
    }
}

/// A text ends its first line with its first newline, and with the carriage return before that, if
/// there is one. What is left has the other lines.
pub proof fn law_lines_end_with_newlines(first: Seq<char>, rest: Seq<char>)
    requires
        forall|i: int| 0 <= i < first.len() ==> #[trigger] first[i] != '\n',
    ensures
        lines(Seq::<char>::empty()).len() == 0,
        first.len() > 0 ==> lines(first) == seq![first],
        (first.len() == 0 || first.last() != '\r') ==> lines(first + seq!['\n'] + rest) == seq![first]
            + lines(rest),
        lines(first + seq!['\r', '\n'] + rest) == seq![first] + lines(rest),
{
    lemma_first_index_is(first, '\n', first.len() as int);
    let all = first + seq!['\n'] + rest;
    let n = first.len() as int;
    assert forall|j: int| 0 <= j < n implies all[j] != '\n' by {
        assert(all[j] == first[j]);
    }
    lemma_first_index_is(all, '\n', n);
    assert(all.take(n) =~= first);
    assert(all.skip(n + 1) =~= rest);
    let other = first + seq!['\r', '\n'] + rest;
    assert forall|j: int| 0 <= j < n + 1 implies other[j] != '\n' by {
        if j < n {
            assert(other[j] == first[j]);
        }
    }
    lemma_first_index_is(other, '\n', n + 1);
    assert(other.take(n + 1) =~= first + seq!['\r']);
    assert((first + seq!['\r']).drop_last() =~= first);
    assert(other.skip(n + 2) =~= rest);
}

/// What stands between two texts is found in them.
pub proof fn law_text_is_found_between(before: Seq<char>, pattern: Seq<char>, behind: Seq<char>)
    ensures
        contains(before + pattern + behind, pattern),
{
    let all = before + pattern + behind;
    let at = before.len() as int;
    assert(all.subrange(at, at + pattern.len()) =~= pattern);
    assert(occurs_at(all, pattern, at));
}

/// What is found in a text stands between two others.
pub proof fn law_found_text_stands_between(s: Seq<char>, pattern: Seq<char>) -> (around: (
    Seq<char>,
    Seq<char>,
))
    requires
        contains(s, pattern),
    ensures
        s == around.0 + pattern + around.1,
{
    let i = choose|i: int| occurs_at(s, pattern, i);
    let around = (s.take(i), s.skip(i + pattern.len()));
    assert(s =~= around.0 + pattern + around.1);
    around
}

/// Rows are joined by the separator between each two of them, and by nothing else.
pub proof fn law_joining_is_concatenating(
    parts: Seq<Seq<char>>,
    more: Seq<Seq<char>>,
    separator: Seq<char>,
)
    ensures
        join(Seq::empty(), separator).len() == 0,
        parts.len() == 1 ==> join(parts, separator) == parts[0],
        parts.len() > 0 && more.len() > 0 ==> join(parts + more, separator) == join(parts, separator)
            + separator + join(more, separator),
{
    if parts.len() > 0 && more.len() > 0 {
        lemma_join_concat(parts, more, separator);
    }
}

proof fn lemma_trim_start(s: Seq<char>) -> (blank: Seq<char>)
    ensures
        s == blank + trim_start(s),
        forall|i: int| 0 <= i < blank.len() ==> is_white_space(#[trigger] blank[i]),
        trim_start(s).len() > 0 ==> !is_white_space(trim_start(s)[0]),
    decreases s.len(),
{
    if s.len() > 0 && is_white_space(s[0]) {
        let rest = lemma_trim_start(s.skip(1));
        let blank = seq![s[0]] + rest;
        assert(s =~= seq![s[0]] + s.skip(1));
        assert(seq![s[0]] + (rest + trim_start(s.skip(1))) =~= blank + trim_start(s.skip(1)));
        assert forall|i: int| 0 <= i < blank.len() implies is_white_space(#[trigger] blank[i]) by {
            if i > 0 {
                assert(blank[i] == rest[i - 1]);
            }
        }
        blank
    } else {
        assert(s =~= Seq::<char>::empty() + s);
        Seq::empty()
    }
}

/// Trimming takes the white space at both ends off a text, all of it and nothing else.
pub proof fn law_trimming_takes_white_space(s: Seq<char>) -> (blanks: (Seq<char>, Seq<char>))
    ensures
        s == blanks.0 + trim(s) + blanks.1,
        forall|i: int| 0 <= i < blanks.0.len() ==> is_white_space(#[trigger] blanks.0[i]),
        forall|i: int| 0 <= i < blanks.1.len() ==> is_white_space(#[trigger] blanks.1[i]),
        trim(s).len() > 0 ==> !is_white_space(trim(s)[0]) && !is_white_space(trim(s).last()),
{
    lemma_trim_end(s);
    let left = trim_end(s);
    let behind = s.skip(left.len() as int);
    assert(s =~= left + behind);
    let before = lemma_trim_start(left);
    assert(s =~= before + trim(s) + behind);
    if trim(s).len() > 0 {
        assert(trim(s).last() == left.last());
    }
    (before, behind)
}

/// The characters that are white space.
pub proof fn law_white_space(c: char)
    ensures
        is_white_space(c) <==> (c == '\t' || c == '\n' || c == '\x0b' || c == '\x0c' || c == '\r' || c
            == ' ' || c == '\u{85}' || c == '\u{a0}' || c == '\u{1680}' || '\u{2000}' <= c
            <= '\u{200a}' || c == '\u{2028}' || c == '\u{2029}' || c == '\u{202f}' || c == '\u{205f}'
            || c == '\u{3000}'),
{
}

/// The decimal notation of a number is made of digits, denotes the number, and has no zero in front
/// of another digit.
pub proof fn law_decimal_notation(n: nat)
    ensures
        decimal(n).len() > 0,
        forall|i: int| 0 <= i < decimal(n).len() ==> '0' <= #[trigger] decimal(n)[i] <= '9',
        decimal_value(decimal(n)) == n,
        decimal(n).len() > 1 ==> decimal(n)[0] != '0',
    decreases n,
{
    if n >= 10 {
        law_decimal_notation(n / 10);
        let init = decimal(n / 10);
        assert(decimal(n).drop_last() =~= init);
        assert(decimal(n).last() as nat == 0x30 + n % 10);
        assert(decimal_value(decimal(n)) == decimal_value(init) * 10 + n % 10);
        assert(decimal(n)[0] == init[0]);
        if init.len() == 1 {
            assert(n / 10 < 10) by {
                if n / 10 >= 10 {
                    law_decimal_notation(n / 10 / 10);
                    assert(init.len() == decimal(n / 10 / 10).len() + 1);
                }
            }
        }
    } else {
        assert(decimal(n).drop_last() =~= Seq::<char>::empty());
        assert(decimal(n).last() as nat == 0x30 + n);
        assert(decimal_value(decimal(n).drop_last()) == 0);
    }
}

/// A digit behind a number counts the ones, and the number before it the tens.
pub proof fn law_digits_denote_a_number(digits: Seq<char>, last: char)
    requires
        '0' <= last <= '9',
    ensures
        decimal_value(Seq::<char>::empty()) == 0,
        decimal_value(digits.push(last)) == 10 * decimal_value(digits) + (last as int - '0' as int),
{
    assert(digits.push(last).drop_last() =~= digits);
}

/// A negative number is written as a minus sign and the number without its sign.
pub proof fn law_signed_notation(n: nat)
    ensures
        signed_decimal(n as int) == decimal(n),
        n > 0 ==> signed_decimal(-n) == seq!['-'] + decimal(n),
{
}

} // verus!
