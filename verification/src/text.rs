//! Text helpers: decimal numerals, blank characters, trimming, lines.
//!
//! Every function here is stated over `Seq<char>`, the view of `str` and
//! `String`, so that the rest of the crate can speak of texts as plain
//! sequences.

use vstd::prelude::*;
use vstd::string::*;

verus! {

/// The character of one decimal digit.
pub open spec fn digit_char(d: nat) -> char {
    (0x30 + d) as char
}

/// The decimal numeral of `n`, without sign or leading zeros.
pub open spec fn decimal(n: nat) -> Seq<char>
    decreases n,
{
    if n < 10 {
        seq![digit_char(n)]
    } else {
        decimal(n / 10).push(digit_char(n % 10))
    }
}

/// Characters with the Unicode property `White_Space`.
pub open spec fn is_blank(c: char) -> bool {
    let code = c as u32;
    ||| 0x09 <= code <= 0x0d
    ||| code == 0x20
    ||| code == 0x85
    ||| code == 0xa0
    ||| code == 0x1680
    ||| 0x2000 <= code <= 0x200a
    ||| code == 0x2028
    ||| code == 0x2029
    ||| code == 0x202f
    ||| code == 0x205f
    ||| code == 0x3000
}

/// How many blanks `s` starts with.
pub open spec fn leading_blanks(s: Seq<char>) -> nat
    decreases s.len(),
{
    if s.len() > 0 && is_blank(s[0]) {
        1 + leading_blanks(s.drop_first())
    } else {
        0
    }
}

/// How many blanks `s` ends with.
pub open spec fn trailing_blanks(s: Seq<char>) -> nat
    decreases s.len(),
{
    if s.len() > 0 && is_blank(s.last()) {
        1 + trailing_blanks(s.drop_last())
    } else {
        0
    }
}

/// `s` without the blanks at its two ends.
pub open spec fn trimmed(s: Seq<char>) -> Seq<char> {
    if leading_blanks(s) == s.len() {
        Seq::empty()
    } else {
        s.subrange(leading_blanks(s) as int, s.len() - trailing_blanks(s))
    }
}

/// Index of the first line feed in `s`, or `s.len()` where it has none.
pub open spec fn first_line_feed(s: Seq<char>) -> nat
    decreases s.len(),
{
    if s.len() == 0 || s[0] == '\n' {
        0
    } else {
        1 + first_line_feed(s.drop_first())
    }
}

/// The lines of `text`, each trimmed, without those that are left empty.
/// Lines end at a line feed; the last one may also end with the text.
pub open spec fn trimmed_lines(text: Seq<char>) -> Seq<Seq<char>>
    decreases text.len(),
{
    if text.len() == 0 {
        Seq::empty()
    } else {
        let end = first_line_feed(text) as int;
        let line = trimmed(text.take(end));
        let rest = if end < text.len() {
            trimmed_lines(text.skip(end + 1))
        } else {
            Seq::empty()
        };
        if line.len() == 0 {
            rest
        } else {
            seq![line] + rest
        }
    }
}

/// The lines put together again, with one line feed between neighbours.
pub open spec fn joined(lines: Seq<Seq<char>>) -> Seq<char>
    decreases lines.len(),
{
    if lines.len() == 0 {
        Seq::empty()
    } else if lines.len() == 1 {
        lines[0]
    } else {
        joined(lines.drop_last()).push('\n') + lines.last()
    }
}

/// A count of leading blanks is settled by the first character that is not one.
pub proof fn lemma_leading_blanks(s: Seq<char>, k: int)
    requires
        0 <= k <= s.len(),
        forall|i: int| 0 <= i < k ==> is_blank(#[trigger] s[i]),
        k == s.len() || !is_blank(s[k]),
    ensures
        leading_blanks(s) == k,
    decreases k,
{
    if k > 0 {
        let rest = s.drop_first();
        assert forall|i: int| 0 <= i < k - 1 implies is_blank(#[trigger] rest[i]) by {
            assert(rest[i] == s[i + 1]);
        }
        if k - 1 < rest.len() {
            assert(rest[k - 1] == s[k]);
        }
        lemma_leading_blanks(rest, k - 1);
    }
}

/// A count of trailing blanks is settled by the last character that is not one.
pub proof fn lemma_trailing_blanks(s: Seq<char>, k: int)
    requires
        0 <= k <= s.len(),
        forall|i: int| s.len() - k <= i < s.len() ==> is_blank(#[trigger] s[i]),
        k == s.len() || !is_blank(s[s.len() - k - 1]),
    ensures
        trailing_blanks(s) == k,
    decreases k,
{
    if k > 0 {
        let rest = s.drop_last();
        assert forall|i: int| rest.len() - (k - 1) <= i < rest.len() implies is_blank(
            #[trigger] rest[i],
        ) by {
            assert(rest[i] == s[i]);
        }
        if k - 1 < rest.len() {
            assert(rest[rest.len() - (k - 1) - 1] == s[s.len() - k - 1]);
        }
        lemma_trailing_blanks(rest, k - 1);
    }
}

/// The first line feed is where nothing before it is one.
pub proof fn lemma_first_line_feed(s: Seq<char>, k: int)
    requires
        0 <= k <= s.len(),
        forall|i: int| 0 <= i < k ==> #[trigger] s[i] != '\n',
        k == s.len() || s[k] == '\n',
    ensures
        first_line_feed(s) == k,
    decreases k,
{
    if k > 0 {
        let rest = s.drop_first();
        assert forall|i: int| 0 <= i < k - 1 implies #[trigger] rest[i] != '\n' by {
            assert(rest[i] == s[i + 1]);
        }
        if k - 1 < rest.len() {
            assert(rest[k - 1] == s[k]);
        }
        lemma_first_line_feed(rest, k - 1);
    }
}

/// The leading blanks are blanks, and what follows them is none.
pub proof fn lemma_leading_blanks_end(s: Seq<char>)
    ensures
        leading_blanks(s) <= s.len(),
        forall|i: int| 0 <= i < leading_blanks(s) ==> is_blank(#[trigger] s[i]),
        leading_blanks(s) < s.len() ==> !is_blank(s[leading_blanks(s) as int]),
    decreases s.len(),
{
    if s.len() > 0 && is_blank(s[0]) {
        let rest = s.drop_first();
        lemma_leading_blanks_end(rest);
        assert forall|i: int| 0 <= i < leading_blanks(s) implies is_blank(#[trigger] s[i]) by {
            if i > 0 {
                assert(rest[i - 1] == s[i]);
            }
        }
        if leading_blanks(s) < s.len() {
            assert(rest[leading_blanks(rest) as int] == s[leading_blanks(s) as int]);
        }
    }
}

/// The trailing blanks are blanks, and what precedes them is none.
pub proof fn lemma_trailing_blanks_end(s: Seq<char>)
    ensures
        trailing_blanks(s) <= s.len(),
        forall|i: int| s.len() - trailing_blanks(s) <= i < s.len() ==> is_blank(#[trigger] s[i]),
        trailing_blanks(s) < s.len() ==> !is_blank(s[s.len() - trailing_blanks(s) - 1]),
    decreases s.len(),
{
    if s.len() > 0 && is_blank(s.last()) {
        let rest = s.drop_last();
        lemma_trailing_blanks_end(rest);
        assert forall|i: int| s.len() - trailing_blanks(s) <= i < s.len() implies is_blank(
            #[trigger] s[i],
        ) by {
            if i < s.len() - 1 {
                assert(rest[i] == s[i]);
            }
        }
        if trailing_blanks(s) < s.len() {
            assert(rest[rest.len() - trailing_blanks(rest) - 1] == s[s.len() - trailing_blanks(s)
                - 1]);
        }
    }
}

/// Trimming keeps a piece of the text that neither starts nor ends with a
/// blank, and cuts off nothing but blanks.
pub proof fn lemma_trimmed(s: Seq<char>)
    ensures
        trimmed(s).len() > 0 ==> !is_blank(trimmed(s).first()) && !is_blank(trimmed(s).last()),
        trimmed(s).len() == 0 ==> forall|i: int| 0 <= i < s.len() ==> is_blank(#[trigger] s[i]),
        trimmed(s).len() > 0 ==> leading_blanks(s) + trimmed(s).len() + trailing_blanks(s)
            == s.len(),
        forall|i: int|
            0 <= i < trimmed(s).len() ==> #[trigger] trimmed(s)[i] == s[leading_blanks(s) + i],
{
    lemma_leading_blanks_end(s);
    lemma_trailing_blanks_end(s);
    let lead = leading_blanks(s) as int;
    let trail = trailing_blanks(s) as int;
    if lead < s.len() {
        if s.len() - trail <= lead {
            assert(is_blank(s[lead]));
        }
        assert(lead < s.len() - trail);
        assert(trimmed(s).first() == s[lead]);
        assert(trimmed(s).last() == s[s.len() - trail - 1]);
    }
}

/// Nothing before the first line feed is a line feed.
pub proof fn lemma_first_line_feed_end(s: Seq<char>)
    ensures
        first_line_feed(s) <= s.len(),
        forall|i: int| 0 <= i < first_line_feed(s) ==> #[trigger] s[i] != '\n',
        first_line_feed(s) < s.len() ==> s[first_line_feed(s) as int] == '\n',
    decreases s.len(),
{
    if !(s.len() == 0 || s[0] == '\n') {
        let rest = s.drop_first();
        lemma_first_line_feed_end(rest);
        assert forall|i: int| 0 <= i < first_line_feed(s) implies #[trigger] s[i] != '\n' by {
            if i > 0 {
                assert(rest[i - 1] == s[i]);
            }
        }
        if first_line_feed(s) < s.len() {
            assert(rest[first_line_feed(rest) as int] == s[first_line_feed(s) as int]);
        }
    }
}

/// What a line of `trimmed_lines` is: not empty, without a line feed, and
/// with no blank at either end.
pub open spec fn is_trimmed_line(line: Seq<char>) -> bool {
    &&& line.len() > 0
    &&& !is_blank(line.first())
    &&& !is_blank(line.last())
    &&& forall|i: int| 0 <= i < line.len() ==> #[trigger] line[i] != '\n'
}

/// Every line that `trimmed_lines` gives is a trimmed line, and there are
/// no more of them than the text has characters.
pub proof fn lemma_trimmed_lines(text: Seq<char>)
    ensures
        trimmed_lines(text).len() <= text.len(),
        forall|k: int|
            0 <= k < trimmed_lines(text).len() ==> is_trimmed_line(#[trigger] trimmed_lines(text)[k]),
    decreases text.len(),
{
    if text.len() > 0 {
        lemma_first_line_feed_end(text);
        let end = first_line_feed(text) as int;
        let head = text.take(end);
        let line = trimmed(head);
        lemma_trimmed(head);
        let rest = if end < text.len() {
            trimmed_lines(text.skip(end + 1))
        } else {
            Seq::empty()
        };
        if end < text.len() {
            lemma_trimmed_lines(text.skip(end + 1));
        }
        if line.len() > 0 {
            assert forall|i: int| 0 <= i < line.len() implies #[trigger] line[i] != '\n' by {
                assert(line[i] == head[leading_blanks(head) + i]);
                assert(head[leading_blanks(head) + i] == text[leading_blanks(head) + i]);
            }
            assert(is_trimmed_line(line));
            assert forall|k: int| 0 <= k < trimmed_lines(text).len() implies is_trimmed_line(
                #[trigger] trimmed_lines(text)[k],
            ) by {
                if k > 0 {
                    assert(trimmed_lines(text)[k] == rest[k - 1]);
                }
            }
        }
    }
}

/// Whether `c` is a blank.
pub fn is_blank_char(c: char) -> (blank: bool)
    ensures
        blank == is_blank(c),
{
    let code: u32 = c as u32;
    (0x09 <= code && code <= 0x0d) || code == 0x20 || code == 0x85 || code == 0xa0 || code
        == 0x1680 || (0x2000 <= code && code <= 0x200a) || code == 0x2028 || code == 0x2029
        || code == 0x202f || code == 0x205f || code == 0x3000
}

fn digit_text(d: usize) -> (text: &'static str)
    requires
        d < 10,
    ensures
        text@ == seq![digit_char(d as nat)],
{
    let text = match d {
        0 => "0",
        1 => "1",
        2 => "2",
        3 => "3",
        4 => "4",
        5 => "5",
        6 => "6",
        7 => "7",
        8 => "8",
        _ => "9",
    };
    proof {
        reveal_strlit("0");
        reveal_strlit("1");
        reveal_strlit("2");
        reveal_strlit("3");
        reveal_strlit("4");
        reveal_strlit("5");
        reveal_strlit("6");
        reveal_strlit("7");
        reveal_strlit("8");
        reveal_strlit("9");
        assert(text@ =~= seq![digit_char(d as nat)]);
    }
    text
}

/// Renders `n` in decimal.
pub fn decimal_string(n: usize) -> (text: String)
    ensures
        text@ == decimal(n as nat),
    decreases n,
{
    if n < 10 {
        String::from_str(digit_text(n))
    } else {
        let mut text = decimal_string(n / 10);
        text.append(digit_text(n % 10));
        proof {
            assert(text@ =~= decimal(n as nat));
        }
        text
    }
}

/// The characters of `text`, for access by position.
pub fn chars_of(text: &str) -> (chars: Vec<char>)
    ensures
        chars@ == text@,
{
    let mut chars: Vec<char> = Vec::new();
    for c in it: text.chars()
        invariant
            chars@ == it.seq().take(it.index()),
    {
        chars.push(c);
    }
    chars
}

/// Where the line that starts at `from` ends: at the next line feed, or
/// with the text.
fn line_end(chars: &Vec<char>, from: usize) -> (end: usize)
    requires
        from <= chars.len(),
    ensures
        from <= end <= chars.len(),
        end - from == first_line_feed(chars@.skip(from as int)),
{
    let mut end: usize = from;
    while end < chars.len() && chars[end] != '\n'
        invariant
            from <= end <= chars.len(),
            forall|i: int| from <= i < end ==> #[trigger] chars@[i] != '\n',
        decreases chars.len() - end,
    {
        end += 1;
    }
    proof {
        let tail = chars@.skip(from as int);
        assert forall|i: int| 0 <= i < end - from implies #[trigger] tail[i] != '\n' by {
            assert(tail[i] == chars@[from + i]);
        }
        lemma_first_line_feed(tail, end - from);
    }
    end
}

/// The part of `chars[from..to]` that trimming keeps.
fn trim_bounds(chars: &Vec<char>, from: usize, to: usize) -> (bounds: (usize, usize))
    requires
        from <= to <= chars.len(),
    ensures
        from <= bounds.0 <= bounds.1 <= to,
        chars@.subrange(bounds.0 as int, bounds.1 as int) == trimmed(
            chars@.subrange(from as int, to as int),
        ),
{
    let ghost piece = chars@.subrange(from as int, to as int);
    let mut lo: usize = from;
    while lo < to && is_blank_char(chars[lo])
        invariant
            from <= lo <= to <= chars.len(),
            forall|i: int| from <= i < lo ==> is_blank(#[trigger] chars@[i]),
        decreases to - lo,
    {
        lo += 1;
    }
    proof {
        assert forall|i: int| 0 <= i < lo - from implies is_blank(#[trigger] piece[i]) by {
            assert(piece[i] == chars@[from + i]);
        }
        lemma_leading_blanks(piece, lo - from);
    }
    if lo == to {
        proof {
            assert(chars@.subrange(lo as int, lo as int) =~= Seq::<char>::empty());
        }
        return (lo, lo);
    }
    let mut hi: usize = to;
    while hi > lo && is_blank_char(chars[hi - 1])
        invariant
            from <= lo <= hi <= to <= chars.len(),
            forall|i: int| hi <= i < to ==> is_blank(#[trigger] chars@[i]),
        decreases hi - lo,
    {
        hi -= 1;
    }
    proof {
        assert forall|i: int| piece.len() - (to - hi) <= i < piece.len() implies is_blank(
            #[trigger] piece[i],
        ) by {
            assert(piece[i] == chars@[from + i]);
        }
        assert(hi > lo);
        assert(piece[piece.len() - (to - hi) - 1] == chars@[hi - 1]);
        lemma_trailing_blanks(piece, to - hi);
        assert(chars@.subrange(lo as int, hi as int) =~= piece.subrange(
            lo - from,
            piece.len() - (to - hi),
        ));
    }
    (lo, hi)
}

/// Splits `text` into its lines, trims each, and drops the empty ones.
pub fn split_lines(text: &str) -> (lines: Vec<String>)
    ensures
        lines.deep_view() == trimmed_lines(text@),
{
    let chars = chars_of(text);
    let n = chars.len();
    let mut lines: Vec<String> = Vec::new();
    let mut rest: &str = text;
    let mut start: usize = 0;
    proof {
        assert(text@.skip(0) =~= text@);
        assert(lines.deep_view() + trimmed_lines(text@) =~= trimmed_lines(text@));
    }
    while start < n
        invariant
            chars@ == text@,
            n == chars.len(),
            start <= n,
            rest@ == text@.skip(start as int),
            trimmed_lines(text@) == lines.deep_view() + trimmed_lines(rest@),
        decreases n - start,
    {
        let end = line_end(&chars, start);
        let (lo, hi) = trim_bounds(&chars, start, end);
        let ghost tail = rest@;
        let ghost before = lines.deep_view();
        proof {
            assert(tail.take(end - start) =~= text@.subrange(start as int, end as int));
        }
        if lo < hi {
            let line = String::from_str(rest.substring_char(lo - start, hi - start));
            lines.push(line);
            proof {
                let later = if end < n {
                    trimmed_lines(tail.skip(end - start + 1))
                } else {
                    Seq::empty()
                };
                assert(line@ =~= text@.subrange(lo as int, hi as int));
                assert(lines.deep_view() =~= before.push(line@));
                assert(before + (seq![line@] + later) =~= before.push(line@) + later);
            }
        }
        let next = if end < n {
            end + 1
        } else {
            n
        };
        rest = rest.substring_char(next - start, n - start);
        proof {
            assert(rest@ =~= text@.skip(next as int));
            if end < n {
                assert(tail.skip(end - start + 1) =~= rest@);
            }
        }
        start = next;
    }
    proof {
        assert(rest@ =~= Seq::<char>::empty());
        assert(lines.deep_view() + Seq::<Seq<char>>::empty() =~= lines.deep_view());
    }
    lines
}

/// Joins `lines` with a line feed between neighbours.
pub fn join_lines(lines: &Vec<String>) -> (text: String)
    ensures
        text@ == joined(lines.deep_view()),
{
    let mut text = String::new();
    let mut i: usize = 0;
    while i < lines.len()
        invariant
            i <= lines.len(),
            text@ == joined(lines.deep_view().take(i as int)),
        decreases lines.len() - i,
    {
        if i > 0 {
            text.append("\n");
        }
        text.append(lines[i].as_str());
        proof {
            reveal_strlit("\n");
            let done = lines.deep_view().take(i + 1);
            assert(done.drop_last() =~= lines.deep_view().take(i as int));
            assert(done.last() == lines[i as int]@);
            if i > 0 {
                assert("\n"@ =~= seq!['\n']);
                assert(text@ =~= joined(done.drop_last()).push('\n') + done.last());
            } else {
                assert(text@ =~= done[0]);
            }
        }
        i += 1;
    }
    proof {
        assert(lines.deep_view().take(lines.len() as int) =~= lines.deep_view());
    }
    text
}

} // verus!
