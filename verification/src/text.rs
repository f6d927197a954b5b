//! Text helpers: decimal numerals, joining, line splitting and white space.
use vstd::prelude::*;

verus! {

/// The digit character for `d` (0..=9).
pub open spec fn digit_char(d: nat) -> char {
    if d == 0 { '0' } else if d == 1 { '1' } else if d == 2 { '2' } else if d == 3 { '3' }
    else if d == 4 { '4' } else if d == 5 { '5' } else if d == 6 { '6' } else if d == 7 { '7' }
    else if d == 8 { '8' } else { '9' }
}

/// The decimal numeral of `n`, without leading zeros.
pub open spec fn decimal(n: nat) -> Seq<char>
    decreases n,
{
    if n < 10 {
        seq![digit_char(n)]
    } else {
        decimal(n / 10).push(digit_char(n % 10))
    }
}

fn digit_text(d: u64) -> (s: &'static str)
    requires
        d < 10,
    ensures
        s@ == seq![digit_char(d as nat)],
{
    proof {
        reveal_strlit("0");
        reveal_strlit("1");
        reveal_strlit("2");
        reveal_strlit("3");
        reveal_strlit("4");
        reveal_strlit("5");
        reveal_strlit("6");
        reveal_strlit("7");
        reveal_strlit("8");
        reveal_strlit("9");
    }
    let s = if d == 0 { "0" } else if d == 1 { "1" } else if d == 2 { "2" } else if d == 3 { "3" }
    else if d == 4 { "4" } else if d == 5 { "5" } else if d == 6 { "6" } else if d == 7 { "7" }
    else if d == 8 { "8" } else { "9" };
    assert(s@ =~= seq![digit_char(d as nat)]);
    s
}

/// The decimal numeral of `n`.
pub fn decimal_text(n: u64) -> (s: String)
    ensures
        s@ == decimal(n as nat),
    decreases n,
{
    if n < 10 {
        String::from_str(digit_text(n))
    } else {
        let mut s = decimal_text(n / 10);
        s.append(digit_text(n % 10));
        s
    }
}

/// The parts joined with `sep` between neighbours.
pub open spec fn join(parts: Seq<Seq<char>>, sep: Seq<char>) -> Seq<char>
    decreases parts.len(),
{
    if parts.len() == 0 {
        Seq::empty()
    } else if parts.len() == 1 {
        parts[0]
    } else {
        join(parts.drop_last(), sep) + sep + parts.last()
    }
}

/// The views of a vector of strings.
pub open spec fn texts(v: Seq<String>) -> Seq<Seq<char>> {
    v.map_values(|s: String| s@)
}

/// Joins the strings with `sep` between neighbours.
pub fn join_strings(parts: &Vec<String>, sep: &str) -> (s: String)
    ensures
        s@ == join(texts(parts@), sep@),
{
    let mut s = String::new();
    let mut i: usize = 0;
    while i < parts.len()
        invariant
            i <= parts.len(),
            s@ == join(texts(parts@).take(i as int), sep@),
        decreases parts.len() - i,
    {
        assert(texts(parts@).take(i + 1).drop_last() =~= texts(parts@).take(i as int));
        if i != 0 {
            s.append(sep);
        }
        s.append(parts[i].as_str());
        proof {
            if i == 0 {
                assert(texts(parts@).take(0) =~= Seq::<Seq<char>>::empty());
                assert(s@ =~= texts(parts@).take(1)[0]);
            }
        }
        i = i + 1;
    }
    assert(texts(parts@).take(parts.len() as int) =~= texts(parts@));
    s
}

/// The line with one trailing carriage return removed.
pub open spec fn strip_cr(l: Seq<char>) -> Seq<char> {
    if l.len() > 0 && l.last() == '\r' {
        l.drop_last()
    } else {
        l
    }
}

/// The lines of `s` after the partial line `cur`: each line feed ends a line
/// (and a carriage return just before it is dropped); a last line without a
/// line feed is kept as it is; no line follows a final line feed.
pub open spec fn lines_after(s: Seq<char>, cur: Seq<char>) -> Seq<Seq<char>>
    decreases s.len(),
{
    if s.len() == 0 {
        if cur.len() == 0 {
            Seq::empty()
        } else {
            seq![cur]
        }
    } else if s[0] == '\n' {
        seq![strip_cr(cur)] + lines_after(s.drop_first(), Seq::empty())
    } else {
        lines_after(s.drop_first(), cur.push(s[0]))
    }
}

/// The lines of `s`, as `str::lines` yields them.
pub open spec fn lines_of(s: Seq<char>) -> Seq<Seq<char>> {
    lines_after(s, Seq::empty())
}

/// No line holds a line feed.
pub proof fn lemma_lines_have_no_newline(s: Seq<char>, cur: Seq<char>)
    requires
        !cur.contains('\n'),
    ensures
        forall|i: int| 0 <= i < lines_after(s, cur).len() ==> !(#[trigger] lines_after(s, cur)[i]).contains('\n'),
    decreases s.len(),
{
    if s.len() == 0 {
        if cur.len() > 0 {
            assert(lines_after(s, cur) == seq![cur]);
            assert(lines_after(s, cur)[0] == cur);
        } else {
            assert(lines_after(s, cur).len() == 0);
        }
    } else if s[0] == '\n' {
        lemma_lines_have_no_newline(s.drop_first(), Seq::empty());
        let rest = lines_after(s.drop_first(), Seq::empty());
        let head = strip_cr(cur);
        assert forall|j: int| 0 <= j < head.len() implies head[j] != '\n' by {
            assert(head[j] == cur[j]);
        }
        assert forall|i: int| 0 <= i < lines_after(s, cur).len() implies !(#[trigger] lines_after(s, cur)[i]).contains('\n') by {
            if i > 0 {
                assert(lines_after(s, cur)[i] == rest[i - 1]);
            }
        }
    } else {
        let next = cur.push(s[0]);
        assert forall|j: int| 0 <= j < next.len() implies next[j] != '\n' by {
            if j < cur.len() {
                assert(next[j] == cur[j]);
            }
        }
        lemma_lines_have_no_newline(s.drop_first(), next);
        assert(lines_after(s, cur) == lines_after(s.drop_first(), next));
    }
}

/// Text without a line feed is at most one line.
pub proof fn lemma_one_line(s: Seq<char>, cur: Seq<char>)
    requires
        !s.contains('\n'),
    ensures
        lines_after(s, cur) == (if (cur + s).len() == 0 { Seq::<Seq<char>>::empty() } else { seq![cur + s] }),
    decreases s.len(),
{
    if s.len() > 0 {
        assert(s[0] != '\n');
        assert forall|j: int| 0 <= j < s.drop_first().len() implies s.drop_first()[j] != '\n' by {
            assert(s.drop_first()[j] == s[j + 1]);
        }
        lemma_one_line(s.drop_first(), cur.push(s[0]));
        assert(cur.push(s[0]) + s.drop_first() =~= cur + s);
    } else {
        assert(cur + s =~= cur);
    }
}

/// The lines of `s` (`str::lines`). The standard library documents that
/// lines end at `\n` or `\r\n`, that the terminator is not part of the line,
/// that the final terminator is optional, and that a final line ending in a
/// bare `\r` keeps it.
#[verifier::external_body]
pub(crate) fn text_lines(s: &str) -> (lines: Vec<&str>)
    ensures
        lines@.map_values(|l: &str| l@) == lines_of(s@),
{
    s.lines().collect()
}

/// Unicode White_Space, the property that `char::is_whitespace` tests.
pub open spec fn white_space(c: char) -> bool {
    ||| ('\t' <= c <= '\r')
    ||| c == ' '
    ||| c == '\u{85}'
    ||| c == '\u{a0}'
    ||| c == '\u{1680}'
    ||| ('\u{2000}' <= c <= '\u{200a}')
    ||| c == '\u{2028}'
    ||| c == '\u{2029}'
    ||| c == '\u{202f}'
    ||| c == '\u{205f}'
    ||| c == '\u{3000}'
}

pub fn is_white_space(c: char) -> (b: bool)
    ensures
        b == white_space(c),
{
    ('\t' <= c && c <= '\r') || c == ' ' || c == '\u{85}' || c == '\u{a0}' || c == '\u{1680}'
        || ('\u{2000}' <= c && c <= '\u{200a}') || c == '\u{2028}' || c == '\u{2029}'
        || c == '\u{202f}' || c == '\u{205f}' || c == '\u{3000}'
}

/// Whether the text holds only white space (`str::trim` leaves it empty).
pub open spec fn blank(s: Seq<char>) -> bool {
    forall|i: int| 0 <= i < s.len() ==> white_space(#[trigger] s[i])
}

pub fn is_blank(s: &str) -> (b: bool)
    ensures
        b == blank(s@),
{
    let mut all = true;
    for c in it: s.chars()
        invariant
            it.seq() == s@,
            all == (forall|k: int| 0 <= k < it.index() ==> white_space(#[trigger] s@[k])),
    {
        if !is_white_space(c) {
            all = false;
        }
    }
    all
}

} // verus!
