//! String building blocks: character-exact equality, decimal rendering,
//! and the fixed `[YYYY-MM-DD HH:MM] summary` log-line format.

use vstd::prelude::*;

verus! {

/// Character-by-character equality of two string slices.
pub fn str_eq(a: &str, b: &str) -> (r: bool)
    ensures
        r == (a@ == b@),
{
    let alen = a.unicode_len();
    let blen = b.unicode_len();
    if alen != blen {
        assert(a@ != b@) by {
            assert(a@.len() != b@.len());
        }
        return false;
    }
    let mut i: usize = 0;
    while i < alen
        invariant
            alen == a@.len(),
            blen == b@.len(),
            alen == blen,
            i <= alen,
            forall|j: int| 0 <= j < i ==> a@[j] == b@[j],
        decreases alen - i,
    {
        if a.get_char(i) != b.get_char(i) {
            return false;
        }
        i += 1;
    }
    proof {
        assert(a@ =~= b@);
    }
    true
}

/// The decimal digit character for a value below ten.
pub open spec fn digit_char(d: int) -> char {
    if d == 0 { '0' }
    else if d == 1 { '1' }
    else if d == 2 { '2' }
    else if d == 3 { '3' }
    else if d == 4 { '4' }
    else if d == 5 { '5' }
    else if d == 6 { '6' }
    else if d == 7 { '7' }
    else if d == 8 { '8' }
    else { '9' }
}

/// A value below one hundred, zero-padded to two digits.
pub open spec fn two_digits(n: int) -> Seq<char> {
    seq![digit_char(n / 10), digit_char(n % 10)]
}

/// A value below ten thousand, zero-padded to four digits.
pub open spec fn four_digits(n: int) -> Seq<char> {
    seq![
        digit_char(n / 1000),
        digit_char((n / 100) % 10),
        digit_char((n / 10) % 10),
        digit_char(n % 10),
    ]
}

/// The unpadded decimal rendering of a nonnegative value.
pub open spec fn dec_chars(n: int) -> Seq<char>
    decreases n,
{
    if n < 10 {
        seq![digit_char(n)]
    } else {
        dec_chars(n / 10) + seq![digit_char(n % 10)]
    }
}

/// The decimal rendering of a signed value, with a leading minus sign when
/// negative.
pub open spec fn int_chars(n: int) -> Seq<char> {
    if n < 0 {
        seq!['-'] + dec_chars(-n)
    } else {
        dec_chars(n)
    }
}

fn digit_str(d: u32) -> (r: &'static str)
    requires
        d < 10,
    ensures
        r@ =~= seq![digit_char(d as int)],
{
    proof {
        reveal_strlit("0");
        reveal_strlit("1");
        reveal_strlit("2");
        reveal_strlit("3");
        reveal_strlit("4");
        reveal_strlit("5");
        reveal_strlit("6");
        reveal_strlit("7");
        reveal_strlit("8");
        reveal_strlit("9");
    }
    match d {
        0 => "0",
        1 => "1",
        2 => "2",
        3 => "3",
        4 => "4",
        5 => "5",
        6 => "6",
        7 => "7",
        8 => "8",
        _ => "9",
    }
}

fn push_two_digits(s: &mut String, n: u32)
    requires
        n < 100,
    ensures
        final(s)@ == old(s)@ + two_digits(n as int),
{
    s.append(digit_str(n / 10));
    s.append(digit_str(n % 10));
    proof {
        assert(final(s)@ =~= old(s)@ + two_digits(n as int));
    }
}

fn push_four_digits(s: &mut String, n: u32)
    requires
        n < 10000,
    ensures
        final(s)@ == old(s)@ + four_digits(n as int),
{
    s.append(digit_str(n / 1000));
    s.append(digit_str((n / 100) % 10));
    s.append(digit_str((n / 10) % 10));
    s.append(digit_str(n % 10));
    proof {
        assert(final(s)@ =~= old(s)@ + four_digits(n as int));
    }
}

fn push_dec(s: &mut String, n: u32)
    ensures
        final(s)@ == old(s)@ + dec_chars(n as int),
    decreases n,
{
    if n < 10 {
        s.append(digit_str(n));
        proof {
            assert(final(s)@ =~= old(s)@ + dec_chars(n as int));
        }
    } else {
        push_dec(s, n / 10);
        s.append(digit_str(n % 10));
        proof {
            assert(final(s)@ =~= old(s)@ + dec_chars(n as int));
        }
    }
}

/// The sixteen characters `YYYY-MM-DD HH:MM` for one local-time stamp.
pub open spec fn stamp_chars(y: int, mo: int, d: int, h: int, mi: int) -> Seq<char> {
    four_digits(y) + seq!['-'] + two_digits(mo) + seq!['-'] + two_digits(d) + seq![' ']
        + two_digits(h) + seq![':'] + two_digits(mi)
}

/// A whole log line: the bracketed stamp, a space, then the summary.
pub open spec fn line_chars(y: int, mo: int, d: int, h: int, mi: int, summary: Seq<char>) -> Seq<
    char,
> {
    seq!['['] + stamp_chars(y, mo, d, h, mi) + seq![']'] + seq![' '] + summary
}

/// The stamp always occupies characters 1 through 16 of the line, so slicing
/// there recovers it exactly; the line is never shorter than 19 characters.
pub proof fn lemma_line_shape(y: int, mo: int, d: int, h: int, mi: int, summary: Seq<char>)
    ensures
        line_chars(y, mo, d, h, mi, summary).len() == 19 + summary.len(),
        line_chars(y, mo, d, h, mi, summary).subrange(1, 17) =~= stamp_chars(y, mo, d, h, mi),
{
}

/// Renders a commit accepted by the filter into its canonical log line.
pub fn format_line(y: u32, mo: u32, d: u32, h: u32, mi: u32, summary: &str) -> (r: String)
    requires
        y < 10000,
        mo < 100,
        d < 100,
        h < 100,
        mi < 100,
    ensures
        r@ == line_chars(y as int, mo as int, d as int, h as int, mi as int, summary@),
        r@.len() >= 19,
{
    proof {
        reveal_strlit("[");
        reveal_strlit("-");
        reveal_strlit(" ");
        reveal_strlit(":");
        reveal_strlit("] ");
    }
    let mut s = String::new();
    s.append("[");
    push_four_digits(&mut s, y);
    s.append("-");
    push_two_digits(&mut s, mo);
    s.append("-");
    push_two_digits(&mut s, d);
    s.append(" ");
    push_two_digits(&mut s, h);
    s.append(":");
    push_two_digits(&mut s, mi);
    s.append("] ");
    s.append(summary);
    proof {
        assert(s@ =~= line_chars(y as int, mo as int, d as int, h as int, mi as int, summary@));
    }
    s
}

/// Whether `l` is the canonical log line of the given summary for some
/// stamp the formatter could have produced.
pub open spec fn is_log_line_for(l: Seq<char>, summary: Seq<char>) -> bool {
    exists|y: int, mo: int, d: int, h: int, mi: int|
        0 <= y < 10000 && 0 <= mo < 100 && 0 <= d < 100 && 0 <= h < 100 && 0 <= mi < 100 && l
            == line_chars(y, mo, d, h, mi, summary)
}

/// Whether `l` is a canonical log line of some summary.
pub open spec fn is_log_line(l: Seq<char>) -> bool {
    exists|summary: Seq<char>| is_log_line_for(l, summary)
}

/// The `year-month-day` hint string, each part unpadded, as the original
/// date formatting renders it.
pub open spec fn date_chars(y: int, mo: int, d: int) -> Seq<char> {
    int_chars(y) + seq!['-'] + dec_chars(mo) + seq!['-'] + dec_chars(d)
}

/// Renders an explicit year, month and day as the target-date hint.
pub fn date_string_from(y: i32, mo: u32, d: u32) -> (r: String)
    ensures
        r@ == date_chars(y as int, mo as int, d as int),
{
    proof {
        reveal_strlit("-");
    }
    let mut s = String::new();
    if y < 0 {
        s.append("-");
        let mag: u32 = ((-(y as i64)) as u32);
        push_dec(&mut s, mag);
    } else {
        push_dec(&mut s, y as u32);
    }
    s.append("-");
    push_dec(&mut s, mo);
    s.append("-");
    push_dec(&mut s, d);
    proof {
        assert(s@ =~= date_chars(y as int, mo as int, d as int));
    }
    s
}

/// The digest joined into one payload body: lines separated by single
/// semicolons, in digest order.
pub open spec fn joined_chars(lines: Seq<Seq<char>>) -> Seq<char>
    decreases lines.len(),
{
    if lines.len() == 0 {
        Seq::empty()
    } else if lines.len() == 1 {
        lines[0]
    } else {
        joined_chars(lines.drop_last()) + seq![';'] + lines.last()
    }
}

/// Joins the ordered digest with the `;` delimiter into the outbound
/// payload string.
pub fn join_lines(lines: &Vec<String>) -> (r: String)
    ensures
        r@ == joined_chars(Seq::new(lines@.len(), |i: int| lines@[i]@)),
{
    let ghost views = Seq::new(lines@.len(), |i: int| lines@[i]@);
    let mut s = String::new();
    let mut i: usize = 0;
    while i < lines.len()
        invariant
            i <= lines@.len(),
            views == Seq::new(lines@.len(), |i: int| lines@[i]@),
            s@ == joined_chars(views.take(i as int)),
        decreases lines@.len() - i,
    {
        if i > 0 {
            s.append(";");
        }
        s.append(lines[i].as_str());
        proof {
            reveal_strlit(";");
            assert(views.take(i + 1 as int).drop_last() =~= views.take(i as int));
            assert(views.take(i + 1 as int).last() == views[i as int]);
            assert(s@ =~= joined_chars(views.take(i + 1 as int)));
        }
        i += 1;
    }
    proof {
        assert(views.take(lines@.len() as int) =~= views);
    }
    s
}

} // verus!
